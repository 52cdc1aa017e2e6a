use conductor_tools::ctl_playback::{lines_of, parse_playback_csv, playback_step, split_char, CsvField, CsvValue};

fn show(e: &[CsvField]) -> Vec<(String, String)> {
    e.iter()
        .map(|f| {
            let v = match &f.value {
                CsvValue::Number(n) => format!("#{n}"),
                CsvValue::Text(t) => t.clone(),
            };
            (f.name.clone(), v)
        })
        .collect()
}

#[test]
fn lines_and_fields_split_like_std() {
    assert_eq!(lines_of("a\r\nb\n\nc"), vec!["a", "b", "", "c"]);
    assert_eq!(lines_of("a\n"), vec!["a"]);
    assert_eq!(lines_of(""), Vec::<&str>::new());
    assert_eq!(split_char("a,,b", ','), vec!["a", "", "b"]);
    assert_eq!(split_char("", ','), vec![""]);
}

#[test]
fn exported_csv_reads_back_into_events() {
    let csv = "timestamp_ms,event_type,device_id,channel,note,velocity,cc,value,button,axis\n\
               1000,note_on,pad,0,60,100,,,,\n\
               \n\
               2000,cc, my dev ,,,,1,64,,\n";
    let events = parse_playback_csv(csv);
    assert_eq!(events.len(), 2);
    assert_eq!(
        show(&events[0]),
        vec![
            ("timestamp_ms".to_string(), "#1000".to_string()),
            ("event_type".to_string(), "note_on".to_string()),
            ("device_id".to_string(), "pad".to_string()),
            ("channel".to_string(), "#0".to_string()),
            ("note".to_string(), "#60".to_string()),
            ("velocity".to_string(), "#100".to_string()),
        ]
    );
    assert_eq!(show(&events[1])[2], ("device_id".to_string(), "my dev".to_string()));
    assert_eq!(show(&events[1]).len(), 5);
}

#[test]
fn repeated_columns_keep_the_last_value() {
    let events = parse_playback_csv("a,a\n1,2\n");
    assert_eq!(show(&events[0]), vec![("a".to_string(), "#2".to_string())]);
    assert!(parse_playback_csv("").is_empty());
}

#[test]
fn pacing_follows_timestamps() {
    assert_eq!(playback_step(None, Some(1000), false), (0, Some(1000)));
    assert_eq!(playback_step(Some(1000), Some(1250), false), (250, Some(1250)));
    assert_eq!(playback_step(Some(1000), Some(900), false), (0, Some(900)));
    assert_eq!(playback_step(Some(1000), None, false), (0, Some(1000)));
    assert_eq!(playback_step(Some(1000), Some(5000), true), (0, Some(5000)));
}
