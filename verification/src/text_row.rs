use vstd::prelude::*;

verus! {

/// New text for a text row.
pub struct TextRowMessage {
    pub text: String,
}

/// The state of one labelled free-text row, with the placeholder the
/// front end shows while the text is empty.
pub struct TextRow {
    label: String,
    value: String,
    placeholder: String,
}

impl TextRow {
    /// The row's label.
    pub closed spec fn spec_label(&self) -> Seq<char> {
        self.label@
    }

    /// The text entered so far.
    pub closed spec fn spec_value(&self) -> Seq<char> {
        self.value@
    }

    /// The placeholder shown while the text is empty.
    pub closed spec fn spec_placeholder(&self) -> Seq<char> {
        self.placeholder@
    }

    /// A fresh row with no text.
    pub fn new(label: &str, placeholder: &str) -> (s: Self)
        ensures
            s.spec_label() == label@,
            s.spec_value() == Seq::<char>::empty(),
            s.spec_placeholder() == placeholder@,
    {
        TextRow {
            label: label.to_owned(),
            value: String::new(),
            placeholder: placeholder.to_owned(),
        }
    }

    /// The text entered so far.
    pub fn value(&self) -> (v: &str)
        ensures
            v@ == self.spec_value(),
    {
        self.value.as_str()
    }

    /// Replaces the text with what the message carries.
    pub fn update(&mut self, message: TextRowMessage)
        ensures
            final(self).spec_label() == old(self).spec_label(),
            final(self).spec_placeholder() == old(self).spec_placeholder(),
            final(self).spec_value() == message.text@,
    {
        self.value = message.text;
    }
}

} // verus!
