use vstd::prelude::*;

use crate::file_row::{FileRow, FileRowMessage, value_after};
use crate::multifile_selector::{MultiFileSelector, MultiFileSelectorMessage, files_after};
use crate::PanelCommand;

verus! {

/// What the decryption panel reacts to: messages for its two file rows
/// and its share selector, and the request to decrypt, which the front
/// end carries out with [`Self::get_params`].
pub enum DecryptionPanelMessage {
    FileRowInput(FileRowMessage),
    FileRowOutput(FileRowMessage),
    SharesSelector(MultiFileSelectorMessage),
    Decrypt,
}

/// The state of the decryption panel: the safe file to read, the file to
/// write, and the share files to reconstruct the key from.
pub struct DecryptionPanel {
    input_file_row: FileRow,
    output_file_row: FileRow,
    shares_selector: MultiFileSelector,
}

impl DecryptionPanel {
    /// The chosen safe-file path.
    pub closed spec fn spec_input(&self) -> Seq<char> {
        self.input_file_row.spec_value()
    }

    /// The chosen output path.
    pub closed spec fn spec_output(&self) -> Seq<char> {
        self.output_file_row.spec_value()
    }

    /// The chosen share files.
    pub closed spec fn spec_shares(&self) -> Seq<String> {
        self.shares_selector.spec_files()
    }

    /// A fresh panel with nothing chosen.
    pub fn new() -> (s: Self)
        ensures
            s.spec_input() == Seq::<char>::empty(),
            s.spec_output() == Seq::<char>::empty(),
            s.spec_shares() == Seq::<String>::empty(),
    {
        DecryptionPanel {
            input_file_row: FileRow::new("Зашифрованный файл"),
            output_file_row: FileRow::new("Выходной файл").save_mode(true),
            shares_selector: MultiFileSelector::new("Выбранные доли"),
        }
    }

    /// The safe-file path, the output path and the share paths, as chosen
    /// now.
    pub fn get_params(&self) -> (r: (String, String, Vec<String>))
        ensures
            r.0@ == self.spec_input(),
            r.1@ == self.spec_output(),
            r.2@ == self.spec_shares(),
    {
        let input = self.input_file_row.value().clone();
        let output = self.output_file_row.value().clone();
        let files = self.shares_selector.files();
        let mut shares: Vec<String> = Vec::new();
        let mut i: usize = 0;
        while i < files.len()
            invariant
                0 <= i <= files@.len(),
                files@ == self.spec_shares(),
                shares@ =~= files@.take(i as int),
            decreases files@.len() - i,
        {
            shares.push(files[i].clone());
            i = i + 1;
        }
        proof {
            assert(shares@ =~= self.spec_shares());
        }
        (input, output, shares)
    }

    /// Applies one message to the row or selector it addresses; the
    /// request to decrypt changes nothing here — the front end serves it.
    /// Never asks the host for anything.
    pub fn update(&mut self, message: DecryptionPanelMessage) -> (r: PanelCommand)
        ensures
            r == PanelCommand::Nothing,
            final(self).spec_input() == match message {
                DecryptionPanelMessage::FileRowInput(m) => value_after(m, old(self).spec_input()),
                _ => old(self).spec_input(),
            },
            final(self).spec_output() == match message {
                DecryptionPanelMessage::FileRowOutput(m) => value_after(
                    m,
                    old(self).spec_output(),
                ),
                _ => old(self).spec_output(),
            },
            final(self).spec_shares() == match message {
                DecryptionPanelMessage::SharesSelector(m) => files_after(
                    m,
                    old(self).spec_shares(),
                ),
                _ => old(self).spec_shares(),
            },
    {
        match message {
            DecryptionPanelMessage::FileRowInput(m) => {
                self.input_file_row.update(m);
            },
            DecryptionPanelMessage::FileRowOutput(m) => {
                self.output_file_row.update(m);
            },
            DecryptionPanelMessage::SharesSelector(m) => {
                self.shares_selector.update(m);
            },
            DecryptionPanelMessage::Decrypt => (),
        }
        PanelCommand::Nothing
    }
}

} // verus!
