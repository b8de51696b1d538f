use alas_launcher::autostart::{
    build_task_xml, decode_query_output, encode_task_file, finish_set_enabled, query,
    set_enabled, xml_escape, AutostartError, AutostartProbe, AutostartStep, SchtasksOutcome,
    START_MINIMIZED_ARG, TASK_NAME,
};
use alas_launcher::encoding::{decode_utf16_lossy, encode_utf16, le_bytes_of, units_from_le_bytes};
use alas_launcher::platform::Platform;

fn utf16le_with_bom(text: &str) -> Vec<u8> {
    let mut bytes = vec![0xFF, 0xFE];
    for unit in text.encode_utf16() {
        bytes.extend_from_slice(&unit.to_le_bytes());
    }
    bytes
}

#[test]
fn xml_escape_replaces_special_characters() {
    assert_eq!(
        xml_escape(r#"C:\A&B\<x>"q"'s.exe"#),
        "C:\\A&amp;B\\&lt;x&gt;&quot;q&quot;&apos;s.exe"
    );
    assert_eq!(xml_escape("plain"), "plain");
}

#[test]
fn task_xml_runs_launcher_minimized_at_logon() {
    let xml = build_task_xml(r"C:\Games\AzurNext & Co\alas-launcher.exe", r"C:\Games\AzurNext & Co");
    assert!(xml.starts_with("<?xml version=\"1.0\" encoding=\"UTF-16\"?>\n<Task version=\"1.2\""));
    assert!(xml.contains("<LogonTrigger>\n      <Enabled>true</Enabled>\n    </LogonTrigger>"));
    assert!(xml.contains("<RunLevel>HighestAvailable</RunLevel>"));
    assert!(xml.contains(
        "<Command>C:\\Games\\AzurNext &amp; Co\\alas-launcher.exe</Command>\n      <Arguments>--start-minimized</Arguments>\n      <WorkingDirectory>C:\\Games\\AzurNext &amp; Co</WorkingDirectory>"
    ));
    assert!(xml.ends_with("</Exec>\n  </Actions>\n</Task>"));
    assert_eq!(START_MINIMIZED_ARG, "--start-minimized");
    assert_eq!(TASK_NAME, "AzurNext");
}

#[test]
fn task_file_is_utf16_with_byte_order_mark() {
    let bytes = encode_task_file("<Task>é😀</Task>");
    assert_eq!(bytes, utf16le_with_bom("<Task>é😀</Task>"));
}

#[test]
fn task_file_reads_back_as_written() {
    let xml = build_task_xml("C:/Launcher/alas-launcher.exe", "C:/Launcher");
    let bytes = encode_task_file(&xml);
    assert_eq!(decode_query_output(&bytes), xml);
}

#[test]
fn utf16_decoding_replaces_unpaired_surrogates() {
    let units = vec![0x0041, 0xD83D, 0xDE00, 0xD800, 0x0042, 0xDC00];
    assert_eq!(decode_utf16_lossy(&units), "A😀\u{FFFD}B\u{FFFD}");
    let chars: Vec<char> = "a😀".chars().collect();
    assert_eq!(encode_utf16(&chars), vec![0x0061, 0xD83D, 0xDE00]);
    assert_eq!(le_bytes_of(&vec![0x1234, 0xFEFF]), vec![0x34, 0x12, 0xFF, 0xFE]);
    assert_eq!(units_from_le_bytes(&[0x34, 0x12, 0x99]), vec![0x1234]);
}

#[test]
fn query_output_without_bom_is_read_as_utf8() {
    assert_eq!(decode_query_output(&b"<Task>\xffok</Task>".to_vec()), "<Task>\u{FFFD}ok</Task>");
}

#[test]
fn query_finds_task_for_current_launcher() {
    let xml = utf16le_with_bom("<Command>c:/games/ALAS-LAUNCHER.exe</Command>");
    let status = query(AutostartProbe::Task {
        xml,
        current_exe: Some(r"  C:\Games\alas-launcher.exe ".to_string()),
    })
    .expect("query never fails");
    assert!(status.enabled);
    assert!(status.supported);
    assert_eq!(
        status.value.as_deref(),
        Some(r#""  C:\Games\alas-launcher.exe " --start-minimized"#)
    );
}

#[test]
fn query_ignores_task_for_another_launcher() {
    let xml = b"<Command>D:\\Other\\alas-launcher.exe</Command>".to_vec();
    let status = query(AutostartProbe::Task {
        xml,
        current_exe: Some(r"C:\Games\alas-launcher.exe".to_string()),
    })
    .expect("query never fails");
    assert!(!status.enabled);
    assert!(status.supported);
    assert_eq!(status.value, None);
}

#[test]
fn query_without_known_launcher_path_trusts_task() {
    let status = query(AutostartProbe::Task { xml: Vec::new(), current_exe: None })
        .expect("query never fails");
    assert!(status.enabled);
    assert_eq!(status.value, None);
}

#[test]
fn query_without_task_or_support() {
    let none = query(AutostartProbe::NoTask).expect("query never fails");
    assert!(!none.enabled && none.supported && none.value.is_none());
    let unsupported = query(AutostartProbe::Unsupported).expect("query never fails");
    assert!(!unsupported.enabled && !unsupported.supported && unsupported.value.is_none());
}

#[test]
fn set_enabled_is_refused_off_windows() {
    let err = set_enabled(true, Platform::MacOs).unwrap_err();
    assert_eq!(err, AutostartError::Unsupported);
    assert_eq!(err.message(), "Autostart is only supported on Windows");
    assert_eq!(set_enabled(false, Platform::OtherUnix), Err(AutostartError::Unsupported));
    assert_eq!(
        set_enabled(true, Platform::Windows),
        Ok(vec![AutostartStep::RemoveLegacyRunValue, AutostartStep::CreateTask])
    );
    assert_eq!(
        set_enabled(false, Platform::Windows),
        Ok(vec![AutostartStep::RemoveLegacyRunValue, AutostartStep::DeleteTask])
    );
}

#[test]
fn failed_create_reports_schtasks_output() {
    let err = finish_set_enabled(
        AutostartStep::CreateTask,
        SchtasksOutcome::Finished {
            success: false,
            stdout: b"ignored".to_vec(),
            stderr: b"  ERROR: Access is denied.\r\n".to_vec(),
        },
    )
    .unwrap_err();
    assert_eq!(err, AutostartError::CreateFailed("ERROR: Access is denied.".to_string()));
    assert_eq!(err.message(), "Failed to create scheduled task: ERROR: Access is denied.");

    let from_stdout = finish_set_enabled(
        AutostartStep::CreateTask,
        SchtasksOutcome::Finished { success: false, stdout: b" oops \n".to_vec(), stderr: b" \n".to_vec() },
    );
    assert_eq!(from_stdout, Err(AutostartError::CreateFailed("oops".to_string())));
}

#[test]
fn schtasks_that_cannot_start_is_an_error() {
    let err = finish_set_enabled(
        AutostartStep::DeleteTask,
        SchtasksOutcome::NotStarted { error: "not found".to_string() },
    )
    .unwrap_err();
    assert_eq!(err.message(), "Failed to execute schtasks: not found");
}

#[test]
fn delete_that_ran_counts_as_done() {
    assert_eq!(
        finish_set_enabled(
            AutostartStep::DeleteTask,
            SchtasksOutcome::Finished { success: false, stdout: Vec::new(), stderr: b"cannot find".to_vec() },
        ),
        Ok(())
    );
    assert_eq!(
        finish_set_enabled(
            AutostartStep::CreateTask,
            SchtasksOutcome::Finished { success: true, stdout: Vec::new(), stderr: Vec::new() },
        ),
        Ok(())
    );
    assert_eq!(AutostartError::Io("no exe".to_string()).message(), "no exe");
}
