//! A violation: an element that lacks a required attribute.

use vstd::prelude::*;
use vstd::string::*;
use crate::text::{decimal, decimal_string};

verus! {

/// One element of one file that lacks one required attribute.
pub struct Violation {
    /// The file that holds the element.
    pub path: String,
    /// The line on which the element's opening tag starts, counted from 1.
    pub line_num: u32,
    /// The column at which the element's opening tag starts, counted from 1.
    pub col_num: u32,
    /// The element's tag name.
    pub tag: String,
    /// The missing attribute, as the rule wrote it.
    pub attribute: String,
}

/// A violation as a mathematical value.
pub ghost struct ViolationView {
    pub path: Seq<char>,
    pub line_num: u32,
    pub col_num: u32,
    pub tag: Seq<char>,
    pub attribute: Seq<char>,
}

impl View for Violation {
    type V = ViolationView;

    open spec fn view(&self) -> ViolationView {
        ViolationView {
            path: self.path@,
            line_num: self.line_num,
            col_num: self.col_num,
            tag: self.tag@,
            attribute: self.attribute@,
        }
    }
}

/// A list of violations as mathematical values.
pub open spec fn violation_views(violations: Seq<Violation>) -> Seq<ViolationView> {
    Seq::new(violations.len(), |i: int| violations[i]@)
}

/// Whether every violation of a list gives a line and a column that are
/// counted from 1.
pub open spec fn all_placed(violations: Seq<Violation>) -> bool {
    forall|i: int|
        0 <= i < violations.len() ==> (#[trigger] violations[i]).line_num >= 1 && violations[i].col_num >= 1
}

/// The line that reports a violation: `path:line:column tag missing attribute`.
pub open spec fn rendered(violation: ViolationView) -> Seq<char> {
    violation.path + ":"@ + decimal(violation.line_num as nat) + ":"@ + decimal(
        violation.col_num as nat,
    ) + " "@ + violation.tag + " missing "@ + violation.attribute
}

impl Violation {
    /// A violation with the given fields.
    pub fn new(path: &String, line_num: u32, col_num: u32, tag: &str, attribute: &str) -> (violation:
        Violation)
        ensures
            violation@ == (ViolationView {
                path: path@,
                line_num,
                col_num,
                tag: tag@,
                attribute: attribute@,
            }),
    {
        Violation {
            path: path.clone(),
            line_num,
            col_num,
            tag: tag.to_owned(),
            attribute: attribute.to_owned(),
        }
    }

    /// The line that reports the violation.
    pub fn to_string(&self) -> (line: String)
        ensures
            line@ == rendered(self@),
    {
        let mut line = self.path.clone();
        line.append(":");
        line.append(decimal_string(self.line_num).as_str());
        line.append(":");
        line.append(decimal_string(self.col_num).as_str());
        line.append(" ");
        line.append(self.tag.as_str());
        line.append(" missing ");
        line.append(self.attribute.as_str());
        line
    }
}

} // verus!
