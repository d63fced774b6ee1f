use vstd::prelude::*;

verus! {

/// What a file-picking row reacts to.  `SelectFile` asks the front end to
/// open its picker; the front end answers with `FileSelected`, carrying
/// the chosen path or nothing when the picker was dismissed.
pub enum FileRowMessage {
    SelectFile,
    FileSelected(Option<String>),
}

/// The path a row shows after a message arrives at a row showing `value`:
/// a selected path replaces the value; anything else leaves it.
pub open spec fn value_after(message: FileRowMessage, value: Seq<char>) -> Seq<char> {
    match message {
        FileRowMessage::FileSelected(Option::Some(p)) => p@,
        _ => value,
    }
}

/// The state of one labelled file-picking row: the chosen path (empty
/// until one is picked) and whether the row picks a directory or a
/// save target rather than an existing file.
pub struct FileRow {
    label: String,
    value: String,
    directory_mode: bool,
    save_mode: bool,
}

impl FileRow {
    /// The row's label.
    pub closed spec fn spec_label(&self) -> Seq<char> {
        self.label@
    }

    /// The chosen path.
    pub closed spec fn spec_value(&self) -> Seq<char> {
        self.value@
    }

    /// Whether the row picks a directory.
    pub closed spec fn spec_directory_mode(&self) -> bool {
        self.directory_mode
    }

    /// Whether the row picks a save target.
    pub closed spec fn spec_save_mode(&self) -> bool {
        self.save_mode
    }

    /// A fresh row with nothing chosen, picking an existing file.
    pub fn new(label: &str) -> (s: Self)
        ensures
            s.spec_label() == label@,
            s.spec_value() == Seq::<char>::empty(),
            !s.spec_directory_mode(),
            !s.spec_save_mode(),
    {
        FileRow {
            label: label.to_owned(),
            value: String::new(),
            directory_mode: false,
            save_mode: false,
        }
    }

    /// The same row, picking a directory instead when asked to.
    pub fn directory_mode(self, is_directory: bool) -> (s: Self)
        ensures
            s.spec_label() == self.spec_label(),
            s.spec_value() == self.spec_value(),
            s.spec_directory_mode() == is_directory,
            s.spec_save_mode() == self.spec_save_mode(),
    {
        FileRow { directory_mode: is_directory, ..self }
    }

    /// The same row, picking a save target instead when asked to.
    pub fn save_mode(self, is_save: bool) -> (s: Self)
        ensures
            s.spec_label() == self.spec_label(),
            s.spec_value() == self.spec_value(),
            s.spec_directory_mode() == self.spec_directory_mode(),
            s.spec_save_mode() == is_save,
    {
        FileRow { save_mode: is_save, ..self }
    }

    /// The chosen path.
    pub fn value(&self) -> (v: &String)
        ensures
            v@ == self.spec_value(),
    {
        &self.value
    }

    /// Whether nothing has been chosen yet.
    pub fn is_empty(&self) -> (b: bool)
        ensures
            b == (self.spec_value().len() == 0),
    {
        self.value.as_str().is_empty()
    }

    /// Applies one message: a selected path replaces the value; a
    /// dismissed picker, or the request to open one (which the front end
    /// serves), leaves the row as it is.
    pub fn update(&mut self, message: FileRowMessage)
        ensures
            final(self).spec_label() == old(self).spec_label(),
            final(self).spec_directory_mode() == old(self).spec_directory_mode(),
            final(self).spec_save_mode() == old(self).spec_save_mode(),
            final(self).spec_value() == value_after(message, old(self).spec_value()),
    {
        match message {
            FileRowMessage::SelectFile => (),
            FileRowMessage::FileSelected(Option::Some(p)) => {
                self.value = p;
            },
            FileRowMessage::FileSelected(Option::None) => (),
        }
    }
}

} // verus!
