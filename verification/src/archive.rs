//! The daily prompt job: where a generated prompt is filed in the archive
//! repository, what the request that files it holds, and how the job goes
//! on after each of its steps.

use vstd::prelude::*;
use vstd::string::{StringExecFns, StringSliceAdditionalSpecFns};
use crate::display::{decimal_digits, push_decimal, two_digit_text, two_digits};

verus! {

/// The character of the base64 digit `v` in the standard alphabet.
pub open spec fn base64_digit(v: int) -> char {
    if v < 26 {
        (65 + v) as u8 as char
    } else if v < 52 {
        (71 + v) as u8 as char
    } else if v < 62 {
        (v - 4) as u8 as char
    } else if v == 62 {
        '+'
    } else {
        '/'
    }
}

/// The standard base64 text of `bytes`, padded with `=`: four digits for
/// each three bytes.
pub open spec fn base64_text(bytes: Seq<u8>) -> Seq<char>
    decreases bytes.len(),
{
    if bytes.len() == 0 {
        Seq::empty()
    } else if bytes.len() == 1 {
        let a = bytes[0] as int;
        seq![base64_digit(a / 4), base64_digit((a % 4) * 16), '=', '=']
    } else if bytes.len() == 2 {
        let a = bytes[0] as int;
        let b = bytes[1] as int;
        seq![
            base64_digit(a / 4),
            base64_digit((a % 4) * 16 + b / 16),
            base64_digit((b % 16) * 4),
            '=',
        ]
    } else {
        let a = bytes[0] as int;
        let b = bytes[1] as int;
        let c = bytes[2] as int;
        seq![
            base64_digit(a / 4),
            base64_digit((a % 4) * 16 + b / 16),
            base64_digit((b % 16) * 4 + c / 64),
            base64_digit(c % 64),
        ] + base64_text(bytes.skip(3))
    }
}

/// Whether the base64 text of `len` bytes has a length that the machine can
/// count: four characters for each three bytes, and four more for what is
/// left, must fit.
pub open spec fn encodable(len: nat) -> bool {
    len / 3 <= (usize::MAX - 4) / 4
}

/// Calls `Engine::encode` of the `base64` crate on its `STANDARD` engine.
/// The contract states the encoding of RFC 4648 with padding, which is what
/// that engine is documented to produce. The call stops the program where
/// the length of the result cannot be counted, so such input is left out.
#[verifier::external_body]
pub(crate) fn base64_standard(bytes: &[u8]) -> (r: String)
    requires
        encodable(bytes@.len()),
    ensures
        r@ == base64_text(bytes@),
{
    base64::Engine::encode(&base64::engine::general_purpose::STANDARD, bytes)
}

/// A calendar date and a time of day.
#[derive(Clone, Copy, Debug, PartialEq, Eq, Structural)]
pub struct Moment {
    pub year: u32,
    /// Counted from zero: January is 0.
    pub month: u32,
    pub day: u32,
    pub hours: u32,
    pub minutes: u32,
    pub seconds: u32,
}

/// The date of `m` as `YYYY-MM-DD`, month and day in at least two digits.
pub open spec fn date_text(m: Moment) -> Seq<char> {
    decimal_digits(m.year as nat) + "-"@ + two_digit_text((m.month + 1) as nat) + "-"@
        + two_digit_text(m.day as nat)
}

/// The file that holds the prompt generated at `m`:
/// `prompts/<year>/<month>/<day>-<hours><minutes><seconds>.json`.
pub open spec fn archive_path(m: Moment) -> Seq<char> {
    "prompts/"@ + decimal_digits(m.year as nat) + "/"@ + two_digit_text((m.month + 1) as nat)
        + "/"@ + two_digit_text(m.day as nat) + "-"@ + two_digit_text(m.hours as nat)
        + two_digit_text(m.minutes as nat) + two_digit_text(m.seconds as nat) + ".json"@
}

/// The message of the commit that files the prompt generated at `m`.
pub open spec fn commit_text(m: Moment) -> Seq<char> {
    "✨ Daily creative prompt "@ + date_text(m)
}

/// The address of the request that files `path` in the repository `repo`.
pub open spec fn contents_url(repo: Seq<char>, path: Seq<char>) -> Seq<char> {
    "https://api.github.com/repos/"@ + repo + "/contents/"@ + path
}

/// What the request that archives a prompt holds.
#[derive(Debug)]
pub struct ArchiveRequest {
    pub file_path: String,
    pub commit_message: String,
    pub encoded_content: String,
    pub api_url: String,
}

/// What an archive request holds, as mathematical values.
pub struct ArchiveView {
    pub file_path: Seq<char>,
    pub commit_message: Seq<char>,
    pub encoded_content: Seq<char>,
    pub api_url: Seq<char>,
}

impl View for ArchiveRequest {
    type V = ArchiveView;

    open spec fn view(&self) -> ArchiveView {
        ArchiveView {
            file_path: self.file_path@,
            commit_message: self.commit_message@,
            encoded_content: self.encoded_content@,
            api_url: self.api_url@,
        }
    }
}

/// The request that archives the document `content`, whose bytes are
/// `bytes`, generated at `m`, in the repository `repo`.
pub open spec fn planned_archive(repo: Seq<char>, m: Moment, bytes: Seq<u8>) -> ArchiveView {
    ArchiveView {
        file_path: archive_path(m),
        commit_message: commit_text(m),
        encoded_content: base64_text(bytes),
        api_url: contents_url(repo, archive_path(m)),
    }
}

/// The month of `m` counted from one, in at least two digits.
fn month_text(m: &Moment) -> (s: String)
    ensures
        s@ == two_digit_text((m.month + 1) as nat),
{
    if m.month < u32::MAX {
        two_digits(m.month + 1)
    } else {
        let mut s = String::new();
        push_decimal(&mut s, m.month as u64 + 1);
        assert(s@ =~= two_digit_text((m.month + 1) as nat));
        s
    }
}

/// Prepares the request that archives `content` in the repository `repo`;
/// `None` where the content is too long to be encoded.
pub fn plan_archive(repo: &str, m: &Moment, content: &str) -> (r: Option<ArchiveRequest>)
    ensures
        r is Some <==> encodable(content.spec_bytes().len()),
        r matches Some(req) ==> req@ == planned_archive(repo@, *m, content.spec_bytes()),
{
    let bytes = content.as_bytes();
    if bytes.len() / 3 > (usize::MAX - 4) / 4 {
        return None;
    }
    let mut year = String::new();
    push_decimal(&mut year, m.year as u64);
    let month = month_text(m);
    let day = two_digits(m.day);
    let hours = two_digits(m.hours);
    let minutes = two_digits(m.minutes);
    let seconds = two_digits(m.seconds);

    let mut file_path = String::new();
    file_path.append("prompts/");
    file_path.append(year.as_str());
    file_path.append("/");
    file_path.append(month.as_str());
    file_path.append("/");
    file_path.append(day.as_str());
    file_path.append("-");
    file_path.append(hours.as_str());
    file_path.append(minutes.as_str());
    file_path.append(seconds.as_str());
    file_path.append(".json");
    assert(file_path@ =~= archive_path(*m));

    let mut commit_message = String::new();
    commit_message.append("✨ Daily creative prompt ");
    commit_message.append(year.as_str());
    commit_message.append("-");
    commit_message.append(month.as_str());
    commit_message.append("-");
    commit_message.append(day.as_str());
    assert(commit_message@ =~= commit_text(*m));

    let mut api_url = String::new();
    api_url.append("https://api.github.com/repos/");
    api_url.append(repo);
    api_url.append("/contents/");
    api_url.append(file_path.as_str());
    assert(api_url@ =~= contents_url(repo@, archive_path(*m)));

    let encoded_content = base64_standard(bytes);
    Some(ArchiveRequest { file_path, commit_message, encoded_content, api_url })
}

/// Where the daily job stands.
#[derive(Clone, Copy, Debug, PartialEq, Eq, Structural)]
pub enum JobState {
    Generating,
    Storing,
    Archiving,
    Finished,
}

/// What the job is to do next.
#[derive(Clone, Copy, Debug, PartialEq, Eq, Structural)]
pub enum JobAction {
    /// Put the generated prompt in the key-value store.
    Store,
    /// File the prompt in the archive repository.
    Archive,
    /// Stop; `completed` tells whether the prompt of the day is in place.
    Stop { completed: bool },
}

/// How the job goes on after a step that succeeded or failed. A prompt that
/// could not be generated or stored ends the job without success; one that
/// could not be archived does not.
pub open spec fn job_after(state: JobState, succeeded: bool) -> (JobState, JobAction) {
    match state {
        JobState::Generating => if succeeded {
            (JobState::Storing, JobAction::Store)
        } else {
            (JobState::Finished, JobAction::Stop { completed: false })
        },
        JobState::Storing => if succeeded {
            (JobState::Archiving, JobAction::Archive)
        } else {
            (JobState::Finished, JobAction::Stop { completed: false })
        },
        JobState::Archiving => (JobState::Finished, JobAction::Stop { completed: true }),
        JobState::Finished => (JobState::Finished, JobAction::Stop { completed: false }),
    }
}

/// Decides how the job goes on.
pub fn job_step(state: JobState, succeeded: bool) -> (r: (JobState, JobAction))
    ensures
        r == job_after(state, succeeded),
{
    match state {
        JobState::Generating => if succeeded {
            (JobState::Storing, JobAction::Store)
        } else {
            (JobState::Finished, JobAction::Stop { completed: false })
        },
        JobState::Storing => if succeeded {
            (JobState::Archiving, JobAction::Archive)
        } else {
            (JobState::Finished, JobAction::Stop { completed: false })
        },
        JobState::Archiving => (JobState::Finished, JobAction::Stop { completed: true }),
        JobState::Finished => (JobState::Finished, JobAction::Stop { completed: false }),
    }
}

} // verus!
