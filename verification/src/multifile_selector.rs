use vstd::prelude::*;

verus! {

/// What the share-list selector reacts to.  `AddFiles` asks the front end
/// to open its picker; the front end answers with `FilesAdded`, carrying
/// whatever paths were picked.
pub enum MultiFileSelectorMessage {
    AddFiles,
    FilesAdded(Vec<String>),
    RemoveFile(usize),
    ClearAll,
}

/// The list a selector shows after a message arrives at a selector
/// showing `files`: picked paths are appended in order, a removal takes
/// out the named entry (nothing for an index out of range), clearing
/// empties the list, and the request to open the picker changes nothing.
pub open spec fn files_after(message: MultiFileSelectorMessage, files: Seq<String>) -> Seq<String> {
    match message {
        MultiFileSelectorMessage::AddFiles => files,
        MultiFileSelectorMessage::FilesAdded(added) => files + added@,
        MultiFileSelectorMessage::RemoveFile(index) => if index < files.len() {
            files.remove(index as int)
        } else {
            files
        },
        MultiFileSelectorMessage::ClearAll => Seq::<String>::empty(),
    }
}

/// The state of a labelled list of chosen files.
pub struct MultiFileSelector {
    label: String,
    files: Vec<String>,
}

impl MultiFileSelector {
    /// The selector's label.
    pub closed spec fn spec_label(&self) -> Seq<char> {
        self.label@
    }

    /// The chosen paths, in the order they were added.
    pub closed spec fn spec_files(&self) -> Seq<String> {
        self.files@
    }

    /// A fresh selector with nothing chosen.
    pub fn new(label: &str) -> (s: Self)
        ensures
            s.spec_label() == label@,
            s.spec_files() == Seq::<String>::empty(),
    {
        MultiFileSelector { label: label.to_owned(), files: Vec::new() }
    }

    /// The chosen paths.
    pub fn files(&self) -> (v: &Vec<String>)
        ensures
            v@ == self.spec_files(),
    {
        &self.files
    }

    /// How many paths are chosen.
    pub fn count(&self) -> (n: usize)
        ensures
            n == self.spec_files().len(),
    {
        self.files.len()
    }

    /// Applies one message: picked paths are appended in order, a removal
    /// takes out the named entry (and does nothing for an index out of
    /// range), clearing empties the list, and the request to open the
    /// picker (which the front end serves) changes nothing.
    pub fn update(&mut self, message: MultiFileSelectorMessage)
        ensures
            final(self).spec_label() == old(self).spec_label(),
            final(self).spec_files() == files_after(message, old(self).spec_files()),
    {
        match message {
            MultiFileSelectorMessage::AddFiles => (),
            MultiFileSelectorMessage::FilesAdded(mut added) => {
                self.files.append(&mut added);
            },
            MultiFileSelectorMessage::RemoveFile(index) => {
                if index < self.files.len() {
                    self.files.remove(index);
                }
            },
            MultiFileSelectorMessage::ClearAll => {
                self.files.clear();
            },
        }
    }
}

} // verus!
