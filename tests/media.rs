use mediatimer::media::{to_weekday, AdvancedSchedule, Autoloop, ProcType, ScheduleError, Task, Usb, Weekday};

#[test]
fn test_weekday_as_str() {
    let monday = Weekday::Monday(Vec::new());
    assert_eq!(monday.as_str(), "Monday");

    let tuesday = Weekday::Tuesday(Vec::new());
    assert_eq!(tuesday.as_str(), "Tuesday");
}

#[test]
fn test_weekday_to_string() {
    let monday = Weekday::Monday(Vec::new());
    assert_eq!(monday.to_string(), "Monday");

    let thursday = Weekday::Thursday(Vec::new());
    assert_eq!(thursday.to_string(), "Thursday");
}

#[test]
fn test_task_new() {
    let file_path = String::from("/tmp/test.mp4");
    let task = Task::new(ProcType::Video, Autoloop::No, Vec::new(), file_path.clone(), 7);

    match task.proc_type {
        ProcType::Video => assert!(true),
        _ => assert!(false, "Incorrect proc_type"),
    }

    match task.auto_loop {
        Autoloop::No => assert!(true),
        _ => assert!(false, "Incorrect auto_loop value"),
    }

    assert_eq!(task.timings.len(), 0);
    assert_eq!(task.file, file_path);
}

#[test]
fn weekday_names_cover_the_week() {
    let days = vec![
        Weekday::Monday(Vec::new()),
        Weekday::Tuesday(Vec::new()),
        Weekday::Wednesday(Vec::new()),
        Weekday::Thursday(Vec::new()),
        Weekday::Friday(Vec::new()),
        Weekday::Saturday(Vec::new()),
        Weekday::Sunday(Vec::new()),
    ];
    let names: Vec<&str> = days.iter().map(|d| d.as_str()).collect();
    assert_eq!(names, vec!["Monday", "Tuesday", "Wednesday", "Thursday", "Friday", "Saturday", "Sunday"]);
}

#[test]
fn weekday_with_times_keeps_the_day() {
    let day = Weekday::Friday(Vec::new());
    let timed = day.with_times(vec![("08:00".to_string(), "12:00".to_string())]);
    assert_eq!(timed.as_str(), "Friday");
    match timed {
        Weekday::Friday(t) => assert_eq!(t, vec![("08:00".to_string(), "12:00".to_string())]),
        _ => panic!("day changed"),
    }
}

#[test]
fn task_with_web_url_sets_only_the_address() {
    let task = Task::new(ProcType::Web, Autoloop::Yes, Vec::new(), String::new(), 5)
        .with_web_url("https://example.org".to_string());
    assert_eq!(task.web_url, "https://example.org");
    assert_eq!(task.proc_type, ProcType::Web);
    assert_eq!(task.slide_delay, 5);
}

#[test]
fn usb_names_and_device_paths() {
    assert_eq!(Usb::SDA1.as_str(), "sda1");
    assert_eq!(Usb::SDC4.as_str(), "sdc4");
    assert_eq!(Usb::SDB2.as_device_path(), "/dev/sdb2");
    assert_eq!(Usb::UNKNOWN.as_str(), "");
    assert_eq!(Usb::UNKNOWN.as_device_path(), "");
}

#[test]
fn test_to_weekday_valid_format() {
    let value = "08:00-12:00".to_string();
    let schedule = AdvancedSchedule::No;
    let result = to_weekday(value, Weekday::Monday(Vec::new()), schedule);

    assert!(result.is_ok());
    match result.unwrap() {
        Weekday::Monday(schedule) => {
            assert_eq!(schedule.len(), 1);
            assert_eq!(schedule[0].0, "08:00");
            assert_eq!(schedule[0].1, "12:00");
        }
        _ => assert!(false, "Incorrect weekday returned"),
    }
}

#[test]
fn test_to_weekday_multiple_schedules() {
    let value = "08:00-12:00, 14:00-16:00".to_string();
    let schedule = AdvancedSchedule::No;
    let result = to_weekday(value, Weekday::Tuesday(Vec::new()), schedule);

    assert!(result.is_ok());
    match result.unwrap() {
        Weekday::Tuesday(schedule) => {
            assert_eq!(schedule.len(), 2);
            assert_eq!(schedule[0].0, "08:00");
            assert_eq!(schedule[0].1, "12:00");
            assert_eq!(schedule[1].0, "14:00");
            assert_eq!(schedule[1].1, "16:00");
        }
        _ => assert!(false, "Incorrect weekday returned"),
    }
}

#[test]
fn test_to_weekday_empty_string() {
    let value = "".to_string();
    let schedule = AdvancedSchedule::No;
    let result = to_weekday(value, Weekday::Wednesday(Vec::new()), schedule);

    assert!(result.is_ok());
    match result.unwrap() {
        Weekday::Wednesday(schedule) => {
            assert_eq!(schedule.len(), 0);
        }
        _ => assert!(false, "Incorrect weekday returned"),
    }
}

#[test]
fn advanced_schedule_accepts_full_clock_times() {
    let result = to_weekday(
        "08:00:00-12:00:00,\u{a0}14:30:00-16:00:00 ".to_string(),
        Weekday::Sunday(Vec::new()),
        AdvancedSchedule::Yes,
    );
    match result.unwrap() {
        Weekday::Sunday(t) => assert_eq!(
            t,
            vec![
                ("08:00:00".to_string(), "12:00:00".to_string()),
                ("14:30:00".to_string(), "16:00:00".to_string()),
            ]
        ),
        _ => panic!("day changed"),
    }
}

#[test]
fn advanced_schedule_refuses_a_malformed_entry() {
    let result = to_weekday("08:00:00-12:00:00, 8:00-9:00".to_string(), Weekday::Friday(Vec::new()), AdvancedSchedule::Yes);
    assert_eq!(result.unwrap_err(), ScheduleError::IncorrectFormat);
    let late = to_weekday("22:00:00-24:00:00".to_string(), Weekday::Friday(Vec::new()), AdvancedSchedule::Yes);
    assert_eq!(late.unwrap_err(), ScheduleError::IncorrectFormat);
}

#[test]
fn plain_schedule_keeps_text_around_the_first_dash() {
    let result = to_weekday("\t1-2-3 ,x-".to_string(), Weekday::Saturday(Vec::new()), AdvancedSchedule::No);
    match result.unwrap() {
        Weekday::Saturday(t) => assert_eq!(
            t,
            vec![("1".to_string(), "2".to_string()), ("x".to_string(), String::new())]
        ),
        _ => panic!("day changed"),
    }
}
