use vstd::prelude::*;

verus! {

/// A new position for a slider row.
pub struct SliderRowMessage(pub u32);

/// The state of one labelled slider: its current position and the range
/// the front end lets it travel.
pub struct SliderRow {
    label: String,
    value: u32,
    min: u32,
    max: u32,
}

impl SliderRow {
    /// The row's label.
    pub closed spec fn spec_label(&self) -> Seq<char> {
        self.label@
    }

    /// The current position.
    pub closed spec fn spec_value(&self) -> u32 {
        self.value
    }

    /// The smallest position the front end offers.
    pub closed spec fn spec_min(&self) -> u32 {
        self.min
    }

    /// The largest position the front end offers.
    pub closed spec fn spec_max(&self) -> u32 {
        self.max
    }

    /// A fresh slider standing at `min`.
    pub fn new(label: &str, min: u32, max: u32) -> (s: Self)
        ensures
            s.spec_label() == label@,
            s.spec_value() == min,
            s.spec_min() == min,
            s.spec_max() == max,
    {
        SliderRow { label: label.to_owned(), value: min, min, max }
    }

    /// The same slider moved to `value`.
    pub fn with_value(self, value: u32) -> (s: Self)
        ensures
            s.spec_label() == self.spec_label(),
            s.spec_value() == value,
            s.spec_min() == self.spec_min(),
            s.spec_max() == self.spec_max(),
    {
        SliderRow { value, ..self }
    }

    /// The current position.
    pub fn value(&self) -> (v: u32)
        ensures
            v == self.spec_value(),
    {
        self.value
    }

    /// Moves the slider to the position the message carries.
    pub fn update(&mut self, message: SliderRowMessage)
        ensures
            final(self).spec_label() == old(self).spec_label(),
            final(self).spec_min() == old(self).spec_min(),
            final(self).spec_max() == old(self).spec_max(),
            final(self).spec_value() == message.0,
    {
        self.value = message.0;
    }
}

} // verus!
