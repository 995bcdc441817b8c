use estrange::archive::{job_step, plan_archive, JobAction, JobState, Moment};
use estrange::display::{decimal, entry_text, instant_text, two_digits};
use estrange::entry::CreativityEntry;

fn moment() -> Moment {
    Moment { year: 2024, month: 0, day: 5, hours: 7, minutes: 8, seconds: 9 }
}

#[test]
fn decimal_writes_every_number() {
    assert_eq!(decimal(0), "0");
    assert_eq!(decimal(7), "7");
    assert_eq!(decimal(10), "10");
    assert_eq!(decimal(-1), "-1");
    assert_eq!(decimal(1_234_567_890), "1234567890");
    assert_eq!(decimal(i64::MAX), "9223372036854775807");
    assert_eq!(decimal(i64::MIN), "-9223372036854775808");
}

#[test]
fn decimal_agrees_with_the_standard_library() {
    let mut n: i64 = -5000;
    while n <= 5000 {
        assert_eq!(decimal(n), n.to_string());
        n += 7;
    }
}

#[test]
fn two_digits_pads_with_a_zero() {
    assert_eq!(two_digits(0), "00");
    assert_eq!(two_digits(9), "09");
    assert_eq!(two_digits(10), "10");
    assert_eq!(two_digits(59), "59");
    assert_eq!(two_digits(123), "123");
    for n in 0u32..200 {
        assert_eq!(two_digits(n), format!("{:02}", n));
    }
}

#[test]
fn instant_text_falls_back_to_seconds() {
    assert_eq!(instant_text(1_431_648_000), "2015-05-15 00:00:00 UTC");
    assert_eq!(instant_text(-3), "-3");
    assert_eq!(instant_text(253_402_300_800), "253402300800");
}

#[test]
fn entry_text_shows_key_date_prompt_and_response() {
    let e = CreativityEntry {
        id: 12,
        sync_id: "0123456789abcdef0123456789abcdef".to_string(),
        created_at: 1_431_648_000,
        modified_at: 1_431_648_000,
        prompt: "A door".to_string(),
        response: "It opens\ninward.".to_string(),
        drawing_vector: None,
        drawing_preview: None,
        metadata: Vec::new(),
    };
    assert_eq!(
        entry_text(&e),
        "─────────────────────────────────────────────────────────────\nID: 12 | Date: 2015-05-15 00:00:00 UTC\nPrompt: A door\n\nIt opens\ninward.\n\n"
    );
}

#[test]
fn archive_request_names_file_message_and_address() {
    let plan = plan_archive("someone/prompts", &moment(), "{}\n").unwrap();
    assert_eq!(plan.file_path, "prompts/2024/01/05-070809.json");
    assert_eq!(plan.commit_message, "✨ Daily creative prompt 2024-01-05");
    assert_eq!(
        plan.api_url,
        "https://api.github.com/repos/someone/prompts/contents/prompts/2024/01/05-070809.json"
    );
    assert_eq!(plan.encoded_content, "e30K");
}

#[test]
fn archive_request_in_december() {
    let m = Moment { year: 1999, month: 11, day: 31, hours: 23, minutes: 59, seconds: 59 };
    let plan = plan_archive("r", &m, "").unwrap();
    assert_eq!(plan.file_path, "prompts/1999/12/31-235959.json");
    assert_eq!(plan.commit_message, "✨ Daily creative prompt 1999-12-31");
    assert_eq!(plan.encoded_content, "");
}

#[test]
fn content_is_encoded_in_standard_base64() {
    let cases = [
        ("", ""),
        ("f", "Zg=="),
        ("fo", "Zm8="),
        ("foo", "Zm9v"),
        ("foob", "Zm9vYg=="),
        ("fooba", "Zm9vYmE="),
        ("foobar", "Zm9vYmFy"),
        ("\u{fb}\u{ef}", "w7vDrw=="),
        ("~~~", "fn5+"),
        ("???", "Pz8/"),
    ];
    for (plain, encoded) in cases {
        assert_eq!(plan_archive("r", &moment(), plain).unwrap().encoded_content, encoded, "{:?}", plain);
    }
}

#[test]
fn the_job_stops_when_prompt_or_store_fail() {
    assert_eq!(job_step(JobState::Generating, false), (JobState::Finished, JobAction::Stop { completed: false }));
    assert_eq!(job_step(JobState::Storing, false), (JobState::Finished, JobAction::Stop { completed: false }));
}

#[test]
fn the_job_completes_even_when_the_archive_fails() {
    assert_eq!(job_step(JobState::Generating, true), (JobState::Storing, JobAction::Store));
    assert_eq!(job_step(JobState::Storing, true), (JobState::Archiving, JobAction::Archive));
    assert_eq!(job_step(JobState::Archiving, true), (JobState::Finished, JobAction::Stop { completed: true }));
    assert_eq!(job_step(JobState::Archiving, false), (JobState::Finished, JobAction::Stop { completed: true }));
    assert_eq!(job_step(JobState::Finished, true), (JobState::Finished, JobAction::Stop { completed: false }));
}
