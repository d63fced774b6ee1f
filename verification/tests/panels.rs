use safefile::decryption_panel::{DecryptionPanel, DecryptionPanelMessage};
use safefile::encryption_panel::{EncryptionPanel, EncryptionPanelMessage};
use safefile::file_row::{FileRow, FileRowMessage};
use safefile::multifile_selector::{MultiFileSelector, MultiFileSelectorMessage};
use safefile::slider_row::{SliderRow, SliderRowMessage};
use safefile::text_row::{TextRow, TextRowMessage};
use safefile::PanelCommand;

#[test]
fn file_row_tracks_the_selected_path() {
    let mut row = FileRow::new("input");
    assert!(row.is_empty());
    assert_eq!(row.value(), "");
    row.update(FileRowMessage::SelectFile);
    assert!(row.is_empty(), "opening the picker changes nothing");
    row.update(FileRowMessage::FileSelected(None));
    assert!(row.is_empty(), "a dismissed picker changes nothing");
    row.update(FileRowMessage::FileSelected(Some("/tmp/a.bin".to_string())));
    assert_eq!(row.value(), "/tmp/a.bin");
    let row = FileRow::new("out").save_mode(true).directory_mode(false);
    assert!(row.is_empty());
}

#[test]
fn multifile_selector_adds_removes_and_clears() {
    let mut sel = MultiFileSelector::new("shares");
    assert_eq!(sel.count(), 0);
    sel.update(MultiFileSelectorMessage::AddFiles);
    assert_eq!(sel.count(), 0, "opening the picker changes nothing");
    sel.update(MultiFileSelectorMessage::FilesAdded(vec![
        "a".to_string(),
        "b".to_string(),
        "c".to_string(),
    ]));
    assert_eq!(sel.count(), 3);
    assert_eq!(sel.files(), &["a", "b", "c"]);
    sel.update(MultiFileSelectorMessage::RemoveFile(1));
    assert_eq!(sel.files(), &["a", "c"]);
    sel.update(MultiFileSelectorMessage::RemoveFile(9));
    assert_eq!(sel.count(), 2, "an index out of range removes nothing");
    sel.update(MultiFileSelectorMessage::ClearAll);
    assert_eq!(sel.count(), 0);
}

#[test]
fn slider_row_moves() {
    let mut row = SliderRow::new("total", 2, 10);
    assert_eq!(row.value(), 2);
    let mut row2 = SliderRow::new("total", 2, 10).with_value(5);
    assert_eq!(row2.value(), 5);
    row.update(SliderRowMessage(7));
    assert_eq!(row.value(), 7);
    row2.update(SliderRowMessage(3));
    assert_eq!(row2.value(), 3);
}

#[test]
fn text_row_replaces_its_text() {
    let mut row = TextRow::new("label", "optional");
    assert_eq!(row.value(), "");
    row.update(TextRowMessage { text: "march backup".to_string() });
    assert_eq!(row.value(), "march backup");
}

#[test]
fn encryption_panel_defaults_and_params() {
    let panel = EncryptionPanel::new();
    let (input, output, outdir, shares, threshold, label) = panel.get_params();
    assert_eq!(input, "");
    assert_eq!(output, "");
    assert_eq!(outdir, "");
    assert_eq!(shares, 5);
    assert_eq!(threshold, 3);
    assert!(label.is_none());
}

#[test]
fn encryption_panel_update_flows() {
    let mut panel = EncryptionPanel::new();
    let cmd = panel.update(EncryptionPanelMessage::FileRowInput(FileRowMessage::FileSelected(
        Some("in.dat".to_string()),
    )));
    assert!(matches!(cmd, PanelCommand::Nothing));
    panel.update(EncryptionPanelMessage::FileRowOutput(FileRowMessage::FileSelected(Some(
        "out.safe".to_string(),
    ))));
    panel.update(EncryptionPanelMessage::FileRowOutputDir(FileRowMessage::FileSelected(Some(
        "shares/".to_string(),
    ))));
    panel.update(EncryptionPanelMessage::TotalSharesChanged(6));
    panel.update(EncryptionPanelMessage::ThresholdChanged(4));
    panel.update(EncryptionPanelMessage::LabelChanged("tag".to_string()));
    panel.update(EncryptionPanelMessage::Encrypt);
    let (input, output, outdir, shares, threshold, label) = panel.get_params();
    assert_eq!(input, "in.dat");
    assert_eq!(output, "out.safe");
    assert_eq!(outdir, "shares/");
    assert_eq!(shares, 6);
    assert_eq!(threshold, 4);
    assert_eq!(label.as_deref(), Some("tag"));
}

#[test]
fn encryption_panel_keeps_threshold_at_or_under_total() {
    let mut panel = EncryptionPanel::new();
    panel.update(EncryptionPanelMessage::ThresholdChanged(9));
    let (_, _, _, _, threshold, _) = panel.get_params();
    assert_eq!(threshold, 3, "a threshold above the share count is ignored");
    panel.update(EncryptionPanelMessage::ThresholdChanged(5));
    let (_, _, _, _, threshold, _) = panel.get_params();
    assert_eq!(threshold, 5);
}

#[test]
fn decryption_panel_params_follow_its_rows() {
    let mut panel = DecryptionPanel::new();
    let cmd = panel.update(DecryptionPanelMessage::FileRowInput(FileRowMessage::FileSelected(
        Some("x.safe".to_string()),
    )));
    assert!(matches!(cmd, PanelCommand::Nothing));
    panel.update(DecryptionPanelMessage::FileRowOutput(FileRowMessage::FileSelected(Some(
        "x.out".to_string(),
    ))));
    panel.update(DecryptionPanelMessage::SharesSelector(MultiFileSelectorMessage::FilesAdded(
        vec!["s1".to_string(), "s2".to_string()],
    )));
    panel.update(DecryptionPanelMessage::Decrypt);
    let (input, output, shares) = panel.get_params();
    assert_eq!(input, "x.safe");
    assert_eq!(output, "x.out");
    assert_eq!(shares, vec!["s1".to_string(), "s2".to_string()]);
}
