use vstd::prelude::*;

use crate::file_row::{FileRow, FileRowMessage, value_after};
use crate::slider_row::{SliderRow, SliderRowMessage};
use crate::text_row::{TextRow, TextRowMessage};
use crate::PanelCommand;

verus! {

/// What the encryption panel reacts to: messages for its three file rows,
/// its two sliders and its label row, and the request to encrypt, which
/// the front end carries out with [`Self::get_params`].
pub enum EncryptionPanelMessage {
    TotalSharesChanged(u32),
    ThresholdChanged(u32),
    LabelChanged(String),
    Encrypt,
    FileRowInput(FileRowMessage),
    FileRowOutput(FileRowMessage),
    FileRowOutputDir(FileRowMessage),
}

/// The state of the encryption panel: the file to encrypt, the safe file
/// to write, the directory for the shares, how many shares to make, how
/// many reconstruct, and an optional label.
pub struct EncryptionPanel {
    input_file_row: FileRow,
    output_file_row: FileRow,
    output_dir_row: FileRow,
    total_shares_row: SliderRow,
    threshold_row: SliderRow,
    label_row: TextRow,
}

impl EncryptionPanel {
    /// The chosen input path.
    pub closed spec fn spec_input(&self) -> Seq<char> {
        self.input_file_row.spec_value()
    }

    /// The chosen output path.
    pub closed spec fn spec_output(&self) -> Seq<char> {
        self.output_file_row.spec_value()
    }

    /// The chosen share directory.
    pub closed spec fn spec_outdir(&self) -> Seq<char> {
        self.output_dir_row.spec_value()
    }

    /// How many shares to make.
    pub closed spec fn spec_total_shares(&self) -> u32 {
        self.total_shares_row.spec_value()
    }

    /// How many shares reconstruct.
    pub closed spec fn spec_threshold(&self) -> u32 {
        self.threshold_row.spec_value()
    }

    /// The label entered so far.
    pub closed spec fn spec_label(&self) -> Seq<char> {
        self.label_row.spec_value()
    }

    /// A fresh panel: nothing chosen, five shares of which three
    /// reconstruct, no label.
    pub fn new() -> (s: Self)
        ensures
            s.spec_input() == Seq::<char>::empty(),
            s.spec_output() == Seq::<char>::empty(),
            s.spec_outdir() == Seq::<char>::empty(),
            s.spec_total_shares() == 5,
            s.spec_threshold() == 3,
            s.spec_label() == Seq::<char>::empty(),
    {
        EncryptionPanel {
            input_file_row: FileRow::new("Исходный файл"),
            output_file_row: FileRow::new("Выходной файл").save_mode(true),
            output_dir_row: FileRow::new("Папка для долей").directory_mode(true),
            total_shares_row: SliderRow::new("Всего долей", 2, 10).with_value(5),
            threshold_row: SliderRow::new("Порог для восстановления", 2, 10).with_value(3),
            label_row: TextRow::new("Метка секрета", "Опционально"),
        }
    }

    /// The paths, counts and label as chosen now: input, output, share
    /// directory, shares to make, shares that reconstruct, and the label
    /// when one was entered.  The counts are taken modulo 256, as the
    /// engine speaks in bytes; the front end's slider range keeps them
    /// far below that.
    pub fn get_params(&self) -> (r: (String, String, String, u8, u8, Option<String>))
        ensures
            r.0@ == self.spec_input(),
            r.1@ == self.spec_output(),
            r.2@ == self.spec_outdir(),
            r.3 == self.spec_total_shares() as u8,
            r.4 == self.spec_threshold() as u8,
            self.spec_label().len() == 0 ==> r.5 is None,
            self.spec_label().len() > 0 ==> (r.5 matches Option::Some(l) && l@
                == self.spec_label()),
    {
        let input = self.input_file_row.value().clone();
        let output = self.output_file_row.value().clone();
        let outdir = self.output_dir_row.value().clone();
        #[verifier::truncate]
        let shares = self.total_shares_row.value() as u8;
        #[verifier::truncate]
        let threshold = self.threshold_row.value() as u8;
        let label_text = self.label_row.value();
        let label = if label_text.is_empty() {
            Option::None
        } else {
            Option::Some(label_text.to_owned())
        };
        (input, output, outdir, shares, threshold, label)
    }

    /// Applies one message to the row it addresses.  A new threshold is
    /// taken only when it does not exceed the share count; the request to
    /// encrypt changes nothing here — the front end serves it.  Never
    /// asks the host for anything.
    pub fn update(&mut self, message: EncryptionPanelMessage) -> (r: PanelCommand)
        ensures
            r == PanelCommand::Nothing,
            final(self).spec_input() == match message {
                EncryptionPanelMessage::FileRowInput(m) => value_after(
                    m,
                    old(self).spec_input(),
                ),
                _ => old(self).spec_input(),
            },
            final(self).spec_output() == match message {
                EncryptionPanelMessage::FileRowOutput(m) => value_after(
                    m,
                    old(self).spec_output(),
                ),
                _ => old(self).spec_output(),
            },
            final(self).spec_outdir() == match message {
                EncryptionPanelMessage::FileRowOutputDir(m) => value_after(
                    m,
                    old(self).spec_outdir(),
                ),
                _ => old(self).spec_outdir(),
            },
            final(self).spec_total_shares() == match message {
                EncryptionPanelMessage::TotalSharesChanged(v) => v,
                _ => old(self).spec_total_shares(),
            },
            final(self).spec_threshold() == match message {
                EncryptionPanelMessage::ThresholdChanged(v) => if v <= old(
                    self,
                ).spec_total_shares() {
                    v
                } else {
                    old(self).spec_threshold()
                },
                _ => old(self).spec_threshold(),
            },
            final(self).spec_label() == match message {
                EncryptionPanelMessage::LabelChanged(l) => l@,
                _ => old(self).spec_label(),
            },
    {
        match message {
            EncryptionPanelMessage::FileRowInput(m) => {
                self.input_file_row.update(m);
            },
            EncryptionPanelMessage::FileRowOutput(m) => {
                self.output_file_row.update(m);
            },
            EncryptionPanelMessage::FileRowOutputDir(m) => {
                self.output_dir_row.update(m);
            },
            EncryptionPanelMessage::TotalSharesChanged(v) => {
                self.total_shares_row.update(SliderRowMessage(v));
            },
            EncryptionPanelMessage::ThresholdChanged(v) => {
                if v <= self.total_shares_row.value() {
                    self.threshold_row.update(SliderRowMessage(v));
                }
            },
            EncryptionPanelMessage::LabelChanged(l) => {
                self.label_row.update(TextRowMessage { text: l });
            },
            EncryptionPanelMessage::Encrypt => (),
        }
        PanelCommand::Nothing
    }
}

} // verus!
