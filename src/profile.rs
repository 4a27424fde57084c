use vstd::prelude::*;
use crate::classify::BugVerdict;
use crate::iteration::RunStatus;

verus! {

/// The decimal digits of `n`, most significant first, as ASCII bytes.
pub open spec fn decimal(n: nat) -> Seq<u8>
    decreases n,
{
    if n < 10 {
        seq![(48 + n) as u8]
    } else {
        decimal(n / 10).push((48 + n % 10) as u8)
    }
}

/// The namespace that every profile line starts with, `move-smith-profile`.
/// Words of the profile format are spelled as ASCII codes.
pub open spec fn namespace() -> Seq<u8> {
    seq![
        109, 111, 118, 101, 45, 115, 109, 105, 116, 104, 45, 112, 114, 111,
        102, 105, 108, 101
    ]
}

/// `::`
pub open spec fn separator() -> Seq<u8> {
    seq![58, 58]
}

/// `time`
pub open spec fn time_word() -> Seq<u8> {
    seq![116, 105, 109, 101]
}

/// `status`
pub open spec fn status_word() -> Seq<u8> {
    seq![115, 116, 97, 116, 117, 115]
}

/// `generation`
pub open spec fn generation_word() -> Seq<u8> {
    seq![103, 101, 110, 101, 114, 97, 116, 105, 111, 110]
}

/// "success" for an execution that completed without failure, "error" for a
/// failure or a fault.
pub open spec fn status_text(s: RunStatus) -> Seq<u8> {
    if s == RunStatus::Completed(BugVerdict::NoFinding) {
        seq![115, 117, 99, 99, 101, 115, 115]
    } else {
        seq![101, 114, 114, 111, 114]
    }
}

/// A duration in milliseconds, as written in a profile line.
pub open spec fn millis_text(ms: nat) -> Seq<u8> {
    decimal(ms) + seq![109, 115]
}

/// One line `<namespace>::<category>::<label>::<value>`.
pub open spec fn line(category: Seq<u8>, label: Seq<u8>, value: Seq<u8>) -> Seq<u8> {
    namespace() + separator() + category + separator() + label + separator() + value + seq![
        10,
    ]
}

/// What one run setting contributes: its time line, then its status line.
pub open spec fn setting_lines(p: (Seq<u8>, nat, RunStatus)) -> Seq<u8> {
    line(time_word(), p.0, millis_text(p.1)) + line(status_word(), p.0, status_text(p.2))
}

/// The record of one iteration: the generation time, then the lines of each
/// executed setting in order.
pub open spec fn record_text(generation_ms: nat, runs: Seq<(Seq<u8>, nat, RunStatus)>) -> Seq<u8>
    decreases runs.len(),
{
    if runs.len() == 0 {
        line(time_word(), generation_word(), millis_text(generation_ms))
    } else {
        record_text(generation_ms, runs.drop_last()) + setting_lines(runs.last())
    }
}

/// The measurements of one run setting in one iteration.
#[derive(Debug)]
pub struct SettingProfile {
    pub label: Vec<u8>,
    pub millis: u64,
    pub status: RunStatus,
}

impl View for SettingProfile {
    type V = (Seq<u8>, nat, RunStatus);

    open spec fn view(&self) -> (Seq<u8>, nat, RunStatus) {
        (self.label@, self.millis as nat, self.status)
    }
}

/// Appends `b` to `out`.
fn push_bytes(out: &mut Vec<u8>, b: &[u8])
    ensures
        final(out)@ == old(out)@ + b@,
{
    let ghost start = out@;
    let mut i: usize = 0;
    while i < b.len()
        invariant
            0 <= i <= b.len(),
            out@ == start + b@.subrange(0, i as int),
        decreases b.len() - i,
    {
        out.push(b[i]);
        i = i + 1;
        assert(out@ =~= start + b@.subrange(0, i as int));
    }
    assert(b@.subrange(0, b.len() as int) =~= b@);
}

/// Appends the decimal digits of `n` to `out`.
pub fn push_decimal(out: &mut Vec<u8>, n: u64)
    ensures
        final(out)@ == old(out)@ + decimal(n as nat),
    decreases n,
{
    if n >= 10 {
        push_decimal(out, n / 10);
    }
    let d: u8 = (n % 10) as u8;
    out.push(48u8 + d);
    proof {
        if n >= 10 {
            assert(old(out)@ + decimal(n as nat) =~= old(out)@ + decimal((n / 10) as nat) + seq![
                (48 + d) as u8,
            ]);
        } else {
            assert(old(out)@ + decimal(n as nat) =~= old(out)@ + seq![(48 + d) as u8]);
        }
    }
}

/// Appends one profile line to `out`.
fn push_line(out: &mut Vec<u8>, category: &[u8], label: &[u8], value: &[u8])
    ensures
        final(out)@ == old(out)@ + line(category@, label@, value@),
{
    let namespace: Vec<u8> = vec![
        109, 111, 118, 101, 45, 115, 109, 105, 116, 104, 45, 112, 114, 111,
        102, 105, 108, 101
    ];
    let separator: Vec<u8> = vec![58, 58];
    let ghost start = out@;
    push_bytes(out, namespace.as_slice());
    push_bytes(out, separator.as_slice());
    push_bytes(out, category);
    push_bytes(out, separator.as_slice());
    push_bytes(out, label);
    push_bytes(out, separator.as_slice());
    push_bytes(out, value);
    out.push(10);
    assert(out@ =~= start + line(category@, label@, value@));
}

/// The digits of `ms` followed by "ms".
fn millis_bytes(ms: u64) -> (r: Vec<u8>)
    ensures
        r@ == millis_text(ms as nat),
{
    let mut r: Vec<u8> = Vec::new();
    push_decimal(&mut r, ms);
    r.push(109);
    r.push(115);
    assert(r@ =~= millis_text(ms as nat));
    r
}

/// The status word of one execution.
fn status_bytes(s: RunStatus) -> (r: Vec<u8>)
    ensures
        r@ == status_text(s),
{
    if s == RunStatus::Completed(BugVerdict::NoFinding) {
        vec![115, 117, 99, 99, 101, 115, 115]
    } else {
        vec![101, 114, 114, 111, 114]
    }
}

/// The profile record of one iteration, one line per measurement: the
/// generation time, then for each executed setting its execution time and
/// its status. An iteration that executed nothing records the generation
/// time alone.
pub fn profile_record(generation_ms: u64, runs: &Vec<SettingProfile>) -> (r: Vec<u8>)
    ensures
        r@ == record_text(generation_ms as nat, runs@.map_values(|p: SettingProfile| p@)),
{
    let time: Vec<u8> = vec![116, 105, 109, 101];
    let status: Vec<u8> = vec![115, 116, 97, 116, 117, 115];
    let generation: Vec<u8> = vec![103, 101, 110, 101, 114, 97, 116, 105, 111, 110];
    let mut out: Vec<u8> = Vec::new();
    let gen_text = millis_bytes(generation_ms);
    push_line(&mut out, time.as_slice(), generation.as_slice(), gen_text.as_slice());
    let ghost views = runs@.map_values(|p: SettingProfile| p@);
    assert(out@ == record_text(generation_ms as nat, views.take(0))) by {
        assert(views.take(0).len() == 0);
    }
    let mut i: usize = 0;
    while i < runs.len()
        invariant
            0 <= i <= runs.len(),
            time@ == time_word(),
            status@ == status_word(),
            views == runs@.map_values(|p: SettingProfile| p@),
            out@ == record_text(generation_ms as nat, views.take(i as int)),
        decreases runs.len() - i,
    {
        let p = &runs[i];
        let ms_text = millis_bytes(p.millis);
        let st_text = status_bytes(p.status);
        let ghost before = out@;
        push_line(&mut out, time.as_slice(), p.label.as_slice(), ms_text.as_slice());
        push_line(&mut out, status.as_slice(), p.label.as_slice(), st_text.as_slice());
        proof {
            assert(views.take(i + 1).drop_last() =~= views.take(i as int));
            assert(views.take(i + 1).last() == p@);
            assert(out@ =~= before + setting_lines(p@));
        }
        i = i + 1;
    }
    assert(views.take(runs.len() as int) =~= views);
    out
}

} // verus!
