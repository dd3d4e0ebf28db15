//! From buffered samples to the files of an export.
//!
//! An export has two halves with the encoder runs between them. The session
//! plans one [`EncodeJob`] per speaker it can name; whoever drives the export
//! runs the encoder on every job, all at once if it likes, and hands back one
//! [`EncodeOutcome`] per job; [`collect`] sorts the outcomes into files and
//! failures.

use vstd::prelude::*;
use vstd::string::*;

verus! {

/// Which signal an export takes from a buffer.
#[derive(Clone, Copy, Debug, PartialEq, Eq, Structural)]
pub enum ExportMode {
    /// The samples alone, silences left out.
    Compressed,
    /// The samples with every silence written out as zeros.
    Reconstructed,
}

/// Why an encoder run gave no file.
#[derive(Clone, Copy, Debug, PartialEq, Eq, Structural)]
pub enum EncodeFailure {
    /// The encoder could not be started.
    Spawn,
    /// Writing the samples to the encoder, or reading its output, broke off.
    Stream,
    /// The encoder ended with an error.
    Exit,
    /// The encoder did not end in time and was given up.
    Timeout,
}

/// One encoder run that an export asks for.
pub struct EncodeJob {
    /// The source whose buffer was read.
    pub ssrc: u32,
    /// Who speaks on that source.
    pub user_id: u64,
    /// The speaker's name.
    pub name: String,
    /// The signal, two bytes per sample, most significant first.
    pub pcm: Vec<u8>,
}

impl EncodeJob {
    /// The outcome of this job when its encoder run ended with `result`.
    pub fn finish(self, result: Result<Vec<u8>, EncodeFailure>) -> (outcome: EncodeOutcome)
        ensures
            outcome.user_id == self.user_id,
            outcome.name == self.name,
            outcome.result == result,
    {
        EncodeOutcome { user_id: self.user_id, name: self.name, result }
    }
}

/// How the encoder run of one job ended.
pub struct EncodeOutcome {
    /// Who the job was for.
    pub user_id: u64,
    /// The speaker's name, which names the file.
    pub name: String,
    /// The encoded bytes, or why there are none.
    pub result: Result<Vec<u8>, EncodeFailure>,
}

/// What an [`EncodeOutcome`] holds.
pub struct OutcomeView {
    pub user_id: u64,
    pub name: Seq<char>,
    pub result: Result<Seq<u8>, EncodeFailure>,
}

impl View for EncodeOutcome {
    type V = OutcomeView;

    open spec fn view(&self) -> OutcomeView {
        OutcomeView {
            user_id: self.user_id,
            name: self.name@,
            result: match self.result {
                Ok(bytes) => Ok(bytes@),
                Err(failure) => Err(failure),
            },
        }
    }
}

/// A speaker whose encoder run gave no file.
#[derive(Clone, Copy, Debug, PartialEq, Eq, Structural)]
pub struct FailedExport {
    /// Who the job was for.
    pub user_id: u64,
    /// Why it gave nothing.
    pub failure: EncodeFailure,
}

/// The result of an export: a file for every speaker whose encoder run went
/// well, and a record of every run that did not.
pub struct ExportReport {
    /// Encoded bytes and suggested file name, in the order of the outcomes.
    pub files: Vec<(Vec<u8>, String)>,
    /// The failed runs, in the order of the outcomes.
    pub failures: Vec<FailedExport>,
}

/// The sample as a number from 0 to 65535, in two's complement.
pub open spec fn unsigned(sample: i16) -> int {
    if sample < 0 {
        sample + 65536
    } else {
        sample as int
    }
}

/// The two bytes of a sample, most significant first.
pub open spec fn sample_bytes(sample: i16) -> Seq<u8> {
    seq![(unsigned(sample) / 256) as u8, (unsigned(sample) % 256) as u8]
}

/// The bytes of `samples` in order, each sample most significant byte first.
pub open spec fn be_bytes(samples: Seq<i16>) -> Seq<u8> {
    samples.flat_map(|sample: i16| sample_bytes(sample))
}

/// The file name `name.format`.
pub open spec fn file_name_of(name: Seq<char>, format: Seq<char>) -> Seq<char> {
    name + seq!['.'] + format
}

/// The file that an outcome gives, if its run went well.
pub open spec fn file_of(outcome: OutcomeView, format: Seq<char>) -> Option<
    (Seq<u8>, Seq<char>),
> {
    match outcome.result {
        Ok(bytes) => Some((bytes, file_name_of(outcome.name, format))),
        Err(_) => None,
    }
}

/// The failure that an outcome records, if its run went wrong.
pub open spec fn failure_of(outcome: OutcomeView) -> Option<FailedExport> {
    match outcome.result {
        Ok(_) => None,
        Err(failure) => Some(FailedExport { user_id: outcome.user_id, failure }),
    }
}

/// The files of `outcomes`, in order.
pub open spec fn files_of(outcomes: Seq<OutcomeView>, format: Seq<char>) -> Seq<
    (Seq<u8>, Seq<char>),
> {
    outcomes.filter_map(|outcome: OutcomeView| file_of(outcome, format))
}

/// The failures of `outcomes`, in order.
pub open spec fn failures_of(outcomes: Seq<OutcomeView>) -> Seq<FailedExport> {
    outcomes.filter_map(|outcome: OutcomeView| failure_of(outcome))
}

/// What the files of a report hold.
pub open spec fn files_view(files: Seq<(Vec<u8>, String)>) -> Seq<(Seq<u8>, Seq<char>)> {
    files.map_values(|file: (Vec<u8>, String)| (file.0@, file.1@))
}

/// The raw bytes of `origin` for the encoder: two per sample, most significant
/// first.
pub fn get_bytes(origin: &Vec<i16>) -> (output: Vec<u8>)
    ensures
        output@ == be_bytes(origin@),
{
    let mut output: Vec<u8> = Vec::new();
    let mut at: usize = 0;
    while at < origin.len()
        invariant
            at <= origin.len(),
            output@ == be_bytes(origin@.take(at as int)),
        decreases origin.len() - at,
    {
        let signal: i16 = origin[at];
        let wide: i32 = signal as i32;
        let number: i32 = if wide < 0 {
            wide + 65536
        } else {
            wide
        };
        output.push((number / 256) as u8);
        output.push((number % 256) as u8);
        proof {
            origin@.lemma_flat_map_take_append(|sample: i16| sample_bytes(sample), at as int);
        }
        at += 1;
    }
    assert(origin@.take(origin.len() as int) =~= origin@);
    output
}

/// The container that an export encodes to: the configured one, `ogg` without.
pub fn output_format(custom_format: Option<String>) -> (format: String)
    ensures
        format@ == match custom_format {
            Some(custom) => custom@,
            None => "ogg"@,
        },
{
    match custom_format {
        Some(custom) => custom,
        None => String::from_str("ogg"),
    }
}

/// The name of the file that holds `name`'s audio in the container `format`.
pub fn file_name(name: &str, format: &str) -> (full: String)
    ensures
        full@ == file_name_of(name@, format@),
{
    let mut full = String::from_str(name);
    proof {
        reveal_strlit(".");
    }
    full.append(".");
    full.append(format);
    full
}

/// Sorts the outcomes of an export's encoder runs: each run that went well
/// gives a file named after its speaker, each other run a recorded failure.
/// No failure keeps another speaker's file back.
pub fn collect(outcomes: Vec<EncodeOutcome>, format: &str) -> (report: ExportReport)
    ensures
        files_view(report.files@) == files_of(outcomes@.map_values(|o: EncodeOutcome| o@), format@),
        report.failures@ == failures_of(outcomes@.map_values(|o: EncodeOutcome| o@)),
{
    let ghost views = outcomes@.map_values(|o: EncodeOutcome| o@);
    let mut files: Vec<(Vec<u8>, String)> = Vec::new();
    let mut failures: Vec<FailedExport> = Vec::new();
    for outcome in it: outcomes
        invariant
            it.seq() == outcomes@,
            views == outcomes@.map_values(|o: EncodeOutcome| o@),
            files_view(files@) == files_of(views.take(it.index()), format@),
            failures@ == failures_of(views.take(it.index())),
    {
        let ghost at = it.index();
        let EncodeOutcome { user_id, name, result } = outcome;
        match result {
            Ok(bytes) => {
                let full = file_name(name.as_str(), format);
                files.push((bytes, full));
            },
            Err(failure) => {
                failures.push(FailedExport { user_id, failure });
            },
        }
        proof {
            views.lemma_filter_map_take_succ(|outcome: OutcomeView| file_of(outcome, format@), at);
            views.lemma_filter_map_take_succ(|outcome: OutcomeView| failure_of(outcome), at);
        }
    }
    assert(views.take(views.len() as int) =~= views);
    ExportReport { files, failures }
}

} // verus!
