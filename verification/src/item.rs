//! The declaration of one recognized option.

use vstd::prelude::*;

use crate::model::ItemView;

verus! {

/// One recognized option: its short form (e.g. "-h"), its long form
/// (e.g. "--help"), whether a value must follow, its default value and its
/// help text. A pure value object, immutable once constructed.
pub struct OptParseItem {
    pub option: String,
    pub full_option: String,
    pub arg_required: bool,
    pub value: String,
    pub description: String,
}

impl View for OptParseItem {
    type V = ItemView;

    open spec fn view(&self) -> ItemView {
        ItemView {
            option: self.option@,
            full_option: self.full_option@,
            arg_required: self.arg_required,
            value: self.value@,
            description: self.description@,
        }
    }
}

impl DeepView for OptParseItem {
    type V = ItemView;

    open spec fn deep_view(&self) -> ItemView {
        self.view()
    }
}

impl Clone for OptParseItem {
    fn clone(&self) -> (r: Self)
        ensures
            r@ == self@,
    {
        OptParseItem {
            option: self.option.clone(),
            full_option: self.full_option.clone(),
            arg_required: self.arg_required,
            value: self.value.clone(),
            description: self.description.clone(),
        }
    }
}

impl OptParseItem {
    /// Declares one option from its five fields. No error conditions.
    pub fn new(
        option: &str,
        full_option: &str,
        arg_required: bool,
        value: &str,
        description: &str,
    ) -> (r: Self)
        ensures
            r@ == (ItemView {
                option: option@,
                full_option: full_option@,
                arg_required: arg_required,
                value: value@,
                description: description@,
            }),
    {
        OptParseItem {
            option: option.to_owned(),
            full_option: full_option.to_owned(),
            arg_required: arg_required,
            value: value.to_owned(),
            description: description.to_owned(),
        }
    }
}

} // verus!
