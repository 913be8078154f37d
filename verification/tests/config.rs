use flash_rover::assets::{ccxml_template_path, firmware_path, DeviceFamily};
use flash_rover::ccxml::{ccxml_content, fill_ccxml_template, replace};
use flash_rover::jvm::{dss_jvm_options, java_exception_message, jvm_options, DSS_JAR_PATH};
use flash_rover::target::{
    reset_into_firmware_actions, shutdown_actions, TargetAction, TargetSequence,
    BOARD_RESET_EXPRESSION,
};

#[test]
fn replace_matches_std() {
    let cases = [
        ("", "ab", "x"),
        ("ab", "ab", "x"),
        ("aaa", "aa", "b"),
        ("xabyabz", "ab", "--"),
        ("a", "ab", "x"),
        ("héllo wörld", "ö", "oe"),
        ("abab", "ab", "ab"),
        ("ab", "", "-"),
        ("", "", "x"),
        ("é", "", "."),
    ];
    for (text, pat, rep) in cases.iter() {
        assert_eq!(replace(text, pat, rep), text.replace(pat, rep));
    }
}

#[test]
fn replace_without_match_keeps_text() {
    assert_eq!(replace("no placeholders here", "<<<X>>>", "y"), "no placeholders here");
}

#[test]
fn fill_template_replaces_all_placeholders() {
    let template = "<a sn=\"<<<SERIAL NUMBER>>>\" d=\"<<<DEVICE DESC>>>\"/>\n<b x=\"<<<DEVICE XML>>>\" id=\"<<<DEVICE ID>>>\" again=\"<<<SERIAL NUMBER>>>\"/>";
    let filled = fill_ccxml_template(template, "L4100009", "CC1352R1F3", "cc1352r1f3", "CC1352R1F3_ID");
    assert_eq!(
        filled,
        "<a sn=\"L4100009\" d=\"CC1352R1F3\"/>\n<b x=\"cc1352r1f3\" id=\"CC1352R1F3_ID\" again=\"L4100009\"/>"
    );
}

#[test]
fn fill_template_order_matters() {
    // The serial number is filled first, so a placeholder inside it is filled later.
    let filled = fill_ccxml_template("<<<SERIAL NUMBER>>>", "<<<DEVICE ID>>>", "d", "x", "id");
    assert_eq!(filled, "id");
}

#[test]
fn ccxml_content_decodes_lossily() {
    let mut bytes = b"sn=<<<SERIAL NUMBER>>> ".to_vec();
    bytes.push(0xff);
    let content = ccxml_content(&bytes, "L1", "d", "x", "i");
    assert_eq!(content, "sn=L1 \u{fffd}");
}

#[test]
fn ccxml_content_of_valid_text() {
    let content = ccxml_content("id=<<<DEVICE ID>>>".as_bytes(), "L1", "d", "x", "CC2652R");
    assert_eq!(content, "id=CC2652R");
}

#[test]
fn jvm_options_list() {
    assert_eq!(
        jvm_options("/ccs/dss.jar"),
        vec![
            "-Djava.class.path=/ccs/dss.jar".to_string(),
            "-Dfile.encoding=UTF8".to_string(),
            "-Xms40m".to_string(),
            "-Xmx384m".to_string(),
        ]
    );
}

#[test]
fn dss_jvm_options_clean_the_path() {
    let options = dss_jvm_options("/opt/ti/ccs//./x/../ccs_base/DebugServer/packages/ti/dss/java/dss.jar");
    assert_eq!(
        options[0],
        "-Djava.class.path=/opt/ti/ccs/ccs_base/DebugServer/packages/ti/dss/java/dss.jar"
    );
    assert_eq!(options.len(), 4);
    assert_eq!(dss_jvm_options("")[0], "-Djava.class.path=.");
    assert_eq!(DSS_JAR_PATH, "ccs_base/DebugServer/packages/ti/dss/java/dss.jar");
}

#[test]
fn asset_paths() {
    let expected = [
        (DeviceFamily::CC13x0, "ccxml/template_cc13x0.ccxml", "fw/cc13x0.bin"),
        (DeviceFamily::CC13x1_CC26x1, "ccxml/template_cc13x1_cc26x1.ccxml", "fw/cc13x1_cc26x1.bin"),
        (DeviceFamily::CC26x0, "ccxml/template_cc26x0.ccxml", "fw/cc26x0.bin"),
        (DeviceFamily::CC26x0R2, "ccxml/template_cc26x0r2.ccxml", "fw/cc26x0r2.bin"),
        (DeviceFamily::CC13x2_CC26x2, "ccxml/template_cc13x2_cc26x2.ccxml", "fw/cc13x2_cc26x2.bin"),
        (DeviceFamily::CC13x2x7_CC26x2x7, "ccxml/template_cc13x2_cc26x2.ccxml", "fw/cc13x2x7_cc26x2x7.bin"),
        (DeviceFamily::CC13x4_CC26x4, "ccxml/template_cc13x4_cc26x4.ccxml", "fw/cc13x4_cc26x4.bin"),
    ];
    for (family, ccxml, fw) in expected.iter() {
        assert_eq!(ccxml_template_path(*family), *ccxml);
        assert_eq!(firmware_path(*family), *fw);
    }
}

#[test]
fn reset_actions_halt_only_when_running() {
    assert_eq!(
        reset_into_firmware_actions(true),
        vec![
            TargetAction::Reset,
            TargetAction::EvaluateBoardReset,
            TargetAction::InjectFirmware,
            TargetAction::RunAsynch,
        ]
    );
    assert_eq!(
        reset_into_firmware_actions(false),
        vec![
            TargetAction::Halt,
            TargetAction::Reset,
            TargetAction::EvaluateBoardReset,
            TargetAction::InjectFirmware,
            TargetAction::RunAsynch,
        ]
    );
    assert_eq!(
        BOARD_RESET_EXPRESSION,
        "GEL_AdvancedReset(\"Board Reset (automatic connect/disconnect)\")"
    );
}

#[test]
fn shutdown_sequence() {
    assert_eq!(
        shutdown_actions(),
        vec![
            TargetAction::Halt,
            TargetAction::Reset,
            TargetAction::Disconnect,
            TargetAction::StopServer,
        ]
    );
}

#[test]
fn target_sequence_stops_at_first_failure() {
    let mut seq = TargetSequence::reset_into_firmware(false);
    assert_eq!(seq.next_action(false), Some(TargetAction::Halt));
    assert_eq!(seq.next_action(false), Some(TargetAction::Reset));
    assert_eq!(seq.next_action(true), None);
    assert_eq!(seq.next_action(false), None);

    let mut seq = TargetSequence::shutdown();
    let mut all = Vec::new();
    while let Some(a) = seq.next_action(false) {
        all.push(a);
    }
    assert_eq!(all, shutdown_actions());
}

#[test]
fn java_exception_messages() {
    assert_eq!(java_exception_message(Some("boom".to_string())), "boom");
    assert_eq!(java_exception_message(None), "Java exception was thrown");
}
