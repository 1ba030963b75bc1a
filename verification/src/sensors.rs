//! Readings reported by the hardware tool's thermal query.

use crate::fan_config::SCALE;
use crate::text::{
    chars_of, contains, contains_run, first_token, first_token_bounds, has_prefix, lines_of,
    parse_decimal, parse_u32, starts_with, trim_bounds, trimmed,
};
use vstd::prelude::*;

verus! {

/// What one thermal query reported. A channel that the report does not
/// mention, or whose value is not a number, is `None`.
#[derive(Debug)]
pub struct TempParsed {
    pub f75303_local: Option<u32>,
    pub f75303_cpu: Option<u32>,
    pub f75303_ddr: Option<u32>,
    pub apu: Option<u32>,
    pub dgpu_vr: Option<u32>,
    pub dgpu_vram: Option<u32>,
    pub dgpu_amb: Option<u32>,
    pub dgpu_temp: Option<u32>,
    pub fan_speeds: Vec<u32>,
}

/// The mathematical value of a `TempParsed`.
pub ghost struct TempReading {
    pub f75303_local: Option<u32>,
    pub f75303_cpu: Option<u32>,
    pub f75303_ddr: Option<u32>,
    pub apu: Option<u32>,
    pub dgpu_vr: Option<u32>,
    pub dgpu_vram: Option<u32>,
    pub dgpu_amb: Option<u32>,
    pub dgpu_temp: Option<u32>,
    pub fan_speeds: Seq<u32>,
}

impl View for TempParsed {
    type V = TempReading;

    open spec fn view(&self) -> TempReading {
        TempReading {
            f75303_local: self.f75303_local,
            f75303_cpu: self.f75303_cpu,
            f75303_ddr: self.f75303_ddr,
            apu: self.apu,
            dgpu_vr: self.dgpu_vr,
            dgpu_vram: self.dgpu_vram,
            dgpu_amb: self.dgpu_amb,
            dgpu_temp: self.dgpu_temp,
            fan_speeds: self.fan_speeds@,
        }
    }
}

/// The reading of a report without lines.
pub open spec fn no_reading() -> TempReading {
    TempReading {
        f75303_local: None,
        f75303_cpu: None,
        f75303_ddr: None,
        apu: None,
        dgpu_vr: None,
        dgpu_vram: None,
        dgpu_amb: None,
        dgpu_temp: None,
        fan_speeds: Seq::empty(),
    }
}

/// The number that follows a label: the first word after it, read in base
/// ten.
pub open spec fn value_after(line: Seq<char>, label: Seq<char>) -> Option<u32> {
    parse_u32(first_token(line.subrange(label.len() as int, line.len() as int)))
}

/// The discrete GPU's temperature from what follows its label: 0 where the
/// text says that the GPU is not powered, else the number after the label.
pub open spec fn dgpu_value(line: Seq<char>, label: Seq<char>) -> Option<u32> {
    let rest = line.subrange(label.len() as int, line.len() as int);
    if contains_run(rest, "NotPowered"@) {
        Some(0u32)
    } else {
        value_after(line, label)
    }
}

/// The reading after one more line of the report. The line is trimmed; a
/// labelled line replaces its channel's value, a fan line with a number adds
/// one fan speed, and any other line changes nothing.
pub open spec fn read_line(r: TempReading, raw: Seq<char>) -> TempReading {
    let line = trimmed(raw);
    if line.len() == 0 {
        r
    } else if has_prefix(line, "F75303_Local:"@) {
        TempReading { f75303_local: value_after(line, "F75303_Local:"@), ..r }
    } else if has_prefix(line, "F75303_CPU:"@) {
        TempReading { f75303_cpu: value_after(line, "F75303_CPU:"@), ..r }
    } else if has_prefix(line, "F75303_DDR:"@) {
        TempReading { f75303_ddr: value_after(line, "F75303_DDR:"@), ..r }
    } else if has_prefix(line, "APU:"@) {
        TempReading { apu: value_after(line, "APU:"@), ..r }
    } else if has_prefix(line, "dGPU VR:"@) {
        TempReading { dgpu_vr: value_after(line, "dGPU VR:"@), ..r }
    } else if has_prefix(line, "dGPU VRAM:"@) {
        TempReading { dgpu_vram: value_after(line, "dGPU VRAM:"@), ..r }
    } else if has_prefix(line, "dGPU AMB:"@) {
        TempReading { dgpu_amb: value_after(line, "dGPU AMB:"@), ..r }
    } else if has_prefix(line, "dGPU temp:"@) {
        TempReading { dgpu_temp: dgpu_value(line, "dGPU temp:"@), ..r }
    } else if has_prefix(line, "Fan Speed:"@) {
        match value_after(line, "Fan Speed:"@) {
            Some(speed) => TempReading { fan_speeds: r.fan_speeds.push(speed), ..r },
            None => r,
        }
    } else {
        r
    }
}

/// The reading after the given lines, taken in order.
pub open spec fn read_lines(lines: Seq<Seq<char>>) -> TempReading
    decreases lines.len(),
{
    if lines.len() == 0 {
        no_reading()
    } else {
        read_line(read_lines(lines.drop_last()), lines.last())
    }
}

/// The reading that a report holds.
pub open spec fn reading_of(text: Seq<char>) -> TempReading {
    read_lines(lines_of(text))
}

/// The line, once trimmed, begins with `label`.
pub open spec fn bears(raw: Seq<char>, label: Seq<char>) -> bool {
    trimmed(raw).len() > 0 && has_prefix(trimmed(raw), label)
}

/// Line `i` is the last of `lines` that bears `label`.
pub open spec fn last_bearing(lines: Seq<Seq<char>>, label: Seq<char>, i: int) -> bool {
    &&& 0 <= i < lines.len()
    &&& bears(lines[i], label)
    &&& forall|j: int| i < j < lines.len() ==> !bears(lines[j], label)
}

/// The two channels that drive the fan are read from the last line that
/// bears their label, and are missing where no line bears it.
pub proof fn lemma_principal_channels(lines: Seq<Seq<char>>, i: int)
    ensures
        last_bearing(lines, "APU:"@, i) ==> read_lines(lines).apu == value_after(
            trimmed(lines[i]),
            "APU:"@,
        ),
        last_bearing(lines, "dGPU temp:"@, i) ==> read_lines(lines).dgpu_temp == dgpu_value(
            trimmed(lines[i]),
            "dGPU temp:"@,
        ),
        (forall|j: int| 0 <= j < lines.len() ==> !bears(lines[j], "APU:"@)) ==> read_lines(
            lines,
        ).apu is None,
        (forall|j: int| 0 <= j < lines.len() ==> !bears(lines[j], "dGPU temp:"@)) ==> read_lines(
            lines,
        ).dgpu_temp is None,
    decreases lines.len(),
{
    if lines.len() > 0 {
        let rest = lines.drop_last();
        let line = trimmed(lines.last());
        lemma_principal_channels(rest, i);
        lemma_labels_exclude(line);
        if last_bearing(lines, "APU:"@, i) && i < lines.len() - 1 {
            assert(last_bearing(rest, "APU:"@, i));
        }
        if last_bearing(lines, "dGPU temp:"@, i) && i < lines.len() - 1 {
            assert(last_bearing(rest, "dGPU temp:"@, i));
        }
        if forall|j: int| 0 <= j < lines.len() ==> !bears(lines[j], "APU:"@) {
            assert forall|j: int| 0 <= j < rest.len() implies !bears(rest[j], "APU:"@) by {
                assert(rest[j] == lines[j]);
            }
        }
        if forall|j: int| 0 <= j < lines.len() ==> !bears(lines[j], "dGPU temp:"@) {
            assert forall|j: int| 0 <= j < rest.len() implies !bears(rest[j], "dGPU temp:"@) by {
                assert(rest[j] == lines[j]);
            }
        }
    }
}

/// A line that begins with the label of one of the two principal channels
/// begins with no label that is tried before it.
proof fn lemma_labels_exclude(line: Seq<char>)
    ensures
        has_prefix(line, "APU:"@) ==> !has_prefix(line, "F75303_Local:"@) && !has_prefix(
            line,
            "F75303_CPU:"@,
        ) && !has_prefix(line, "F75303_DDR:"@),
        has_prefix(line, "dGPU temp:"@) ==> !has_prefix(line, "F75303_Local:"@) && !has_prefix(
            line,
            "F75303_CPU:"@,
        ) && !has_prefix(line, "F75303_DDR:"@) && !has_prefix(line, "APU:"@) && !has_prefix(
            line,
            "dGPU VR:"@,
        ) && !has_prefix(line, "dGPU VRAM:"@) && !has_prefix(line, "dGPU AMB:"@),
        !(has_prefix(line, "APU:"@) && has_prefix(line, "dGPU temp:"@)),
{
    reveal_strlit("F75303_Local:");
    reveal_strlit("F75303_CPU:");
    reveal_strlit("F75303_DDR:");
    reveal_strlit("APU:");
    reveal_strlit("dGPU VR:");
    reveal_strlit("dGPU VRAM:");
    reveal_strlit("dGPU AMB:");
    reveal_strlit("dGPU temp:");
    lemma_prefix_fixes_char(line, "F75303_Local:"@, 0);
    lemma_prefix_fixes_char(line, "F75303_CPU:"@, 0);
    lemma_prefix_fixes_char(line, "F75303_DDR:"@, 0);
    lemma_prefix_fixes_char(line, "APU:"@, 0);
    lemma_prefix_fixes_char(line, "dGPU VR:"@, 5);
    lemma_prefix_fixes_char(line, "dGPU VRAM:"@, 5);
    lemma_prefix_fixes_char(line, "dGPU AMB:"@, 5);
    lemma_prefix_fixes_char(line, "dGPU temp:"@, 0);
    lemma_prefix_fixes_char(line, "dGPU temp:"@, 5);
}

proof fn lemma_prefix_fixes_char(line: Seq<char>, label: Seq<char>, k: int)
    requires
        0 <= k < label.len(),
    ensures
        has_prefix(line, label) ==> line[k] == label[k],
{
    if has_prefix(line, label) {
        assert(line.subrange(0, label.len() as int)[k] == label[k]);
    }
}

/// The hotter of two channels. A missing channel is colder than any present
/// one, and with both missing the result is 0.
pub open spec fn hotter(a: Option<u32>, b: Option<u32>) -> u32 {
    match (a, b) {
        (Some(x), Some(y)) => if x >= y { x } else { y },
        (Some(x), None) => x,
        (None, Some(y)) => y,
        (None, None) => 0u32,
    }
}

/// Whole degrees in thousandths of a degree, held at `i32::MAX` where the
/// product does not fit.
pub open spec fn scaled(degrees: u32) -> i32 {
    if degrees * SCALE <= i32::MAX {
        (degrees * SCALE) as i32
    } else {
        i32::MAX
    }
}

struct Labels {
    local: Vec<char>,
    cpu: Vec<char>,
    ddr: Vec<char>,
    apu: Vec<char>,
    vr: Vec<char>,
    vram: Vec<char>,
    amb: Vec<char>,
    dgpu: Vec<char>,
    fan: Vec<char>,
    unpowered: Vec<char>,
}

impl Labels {
    spec fn wf(&self) -> bool {
        &&& self.local@ == "F75303_Local:"@
        &&& self.cpu@ == "F75303_CPU:"@
        &&& self.ddr@ == "F75303_DDR:"@
        &&& self.apu@ == "APU:"@
        &&& self.vr@ == "dGPU VR:"@
        &&& self.vram@ == "dGPU VRAM:"@
        &&& self.amb@ == "dGPU AMB:"@
        &&& self.dgpu@ == "dGPU temp:"@
        &&& self.fan@ == "Fan Speed:"@
        &&& self.unpowered@ == "NotPowered"@
    }

    fn new() -> (labels: Self)
        ensures
            labels.wf(),
    {
        Labels {
            local: chars_of("F75303_Local:"),
            cpu: chars_of("F75303_CPU:"),
            ddr: chars_of("F75303_DDR:"),
            apu: chars_of("APU:"),
            vr: chars_of("dGPU VR:"),
            vram: chars_of("dGPU VRAM:"),
            amb: chars_of("dGPU AMB:"),
            dgpu: chars_of("dGPU temp:"),
            fan: chars_of("Fan Speed:"),
            unpowered: chars_of("NotPowered"),
        }
    }
}

/// Reads the number that follows `label` at the start of `chars[from..to]`.
fn number_after(chars: &Vec<char>, from: usize, to: usize, label: &Vec<char>) -> (value: Option<
    u32,
>)
    requires
        from <= to <= chars@.len(),
        has_prefix(chars@.subrange(from as int, to as int), label@),
    ensures
        value == value_after(chars@.subrange(from as int, to as int), label@),
{
    let rest: usize = from + label.len();
    proof {
        assert(chars@.subrange(from as int, to as int).subrange(
            label@.len() as int,
            to - from,
        ) =~= chars@.subrange(rest as int, to as int));
    }
    let (start, end) = first_token_bounds(chars, rest, to);
    parse_decimal(chars, start, end)
}

/// Applies the line `chars[from..to]` to the reading gathered so far.
fn read_line_into(out: &mut TempParsed, chars: &Vec<char>, from: usize, to: usize, labels: &Labels)
    requires
        from <= to <= chars@.len(),
        labels.wf(),
    ensures
        final(out)@ == read_line(old(out)@, chars@.subrange(from as int, to as int)),
{
    let (a, b) = trim_bounds(chars, from, to);
    let ghost line = chars@.subrange(a as int, b as int);
    if a == b {
        return ;
    }
    if starts_with(chars, a, b, &labels.local) {
        out.f75303_local = number_after(chars, a, b, &labels.local);
    } else if starts_with(chars, a, b, &labels.cpu) {
        out.f75303_cpu = number_after(chars, a, b, &labels.cpu);
    } else if starts_with(chars, a, b, &labels.ddr) {
        out.f75303_ddr = number_after(chars, a, b, &labels.ddr);
    } else if starts_with(chars, a, b, &labels.apu) {
        out.apu = number_after(chars, a, b, &labels.apu);
    } else if starts_with(chars, a, b, &labels.vr) {
        out.dgpu_vr = number_after(chars, a, b, &labels.vr);
    } else if starts_with(chars, a, b, &labels.vram) {
        out.dgpu_vram = number_after(chars, a, b, &labels.vram);
    } else if starts_with(chars, a, b, &labels.amb) {
        out.dgpu_amb = number_after(chars, a, b, &labels.amb);
    } else if starts_with(chars, a, b, &labels.dgpu) {
        let rest: usize = a + labels.dgpu.len();
        proof {
            assert(line.subrange(labels.dgpu@.len() as int, b - a) =~= chars@.subrange(
                rest as int,
                b as int,
            ));
        }
        if contains(chars, rest, b, &labels.unpowered) {
            out.dgpu_temp = Some(0);
        } else {
            out.dgpu_temp = number_after(chars, a, b, &labels.dgpu);
        }
    } else if starts_with(chars, a, b, &labels.fan) {
        match number_after(chars, a, b, &labels.fan) {
            Some(speed) => {
                out.fan_speeds.push(speed);
            },
            None => {},
        }
    }
}

proof fn lemma_lines_of_nonempty(s: Seq<char>)
    ensures
        lines_of(s).len() >= 1,
    decreases s.len(),
{
    if s.len() > 0 {
        lemma_lines_of_nonempty(s.drop_last());
    }
}

/// Parses the report of a thermal query.
///
/// The report is read line by line. Each line is trimmed; a line that begins
/// with a channel's label sets that channel to the number after the label, a
/// later line of the same channel replacing an earlier one, and each
/// `Fan Speed:` line with a number adds one entry to `fan_speeds`.
pub fn parse_temp(input: &str) -> (out: TempParsed)
    ensures
        out@ == reading_of(input@),
{
    let chars = chars_of(input);
    let labels = Labels::new();
    let mut out = TempParsed {
        f75303_local: None,
        f75303_cpu: None,
        f75303_ddr: None,
        apu: None,
        dgpu_vr: None,
        dgpu_vram: None,
        dgpu_amb: None,
        dgpu_temp: None,
        fan_speeds: Vec::new(),
    };
    let n = chars.len();
    let mut start: usize = 0;
    let mut i: usize = 0;
    proof {
        assert(chars@.take(0).len() == 0);
        assert(lines_of(chars@.take(0)) =~= seq![Seq::<char>::empty()]);
        assert(lines_of(chars@.take(0)).drop_last() =~= Seq::<Seq<char>>::empty());
        assert(chars@.subrange(0, 0) =~= Seq::<char>::empty());
    }
    while i < n
        invariant
            start <= i <= n,
            n == chars@.len(),
            labels.wf(),
            lines_of(chars@.take(i as int)).len() >= 1,
            lines_of(chars@.take(i as int)).last() == chars@.subrange(start as int, i as int),
            out@ == read_lines(lines_of(chars@.take(i as int)).drop_last()),
        decreases n - i,
    {
        let ghost before = lines_of(chars@.take(i as int));
        proof {
            assert(chars@.take(i + 1).drop_last() =~= chars@.take(i as int));
            lemma_lines_of_nonempty(chars@.take(i + 1));
        }
        if chars[i] == '\n' {
            read_line_into(&mut out, &chars, start, i, &labels);
            start = i + 1;
            proof {
                assert(lines_of(chars@.take(i + 1)) == before.push(Seq::<char>::empty()));
                assert(lines_of(chars@.take(i + 1)).drop_last() =~= before);
                assert(chars@.subrange(i + 1, i + 1) =~= Seq::<char>::empty());
            }
        } else {
            proof {
                let after = lines_of(chars@.take(i + 1));
                assert(after == before.drop_last().push(before.last().push(chars@[i as int])));
                assert(after.drop_last() =~= before.drop_last());
                assert(chars@.subrange(start as int, i + 1) =~= chars@.subrange(
                    start as int,
                    i as int,
                ).push(chars@[i as int]));
            }
        }
        i += 1;
    }
    proof {
        assert(chars@.take(n as int) =~= chars@);
    }
    read_line_into(&mut out, &chars, start, n, &labels);
    out
}

impl TempParsed {
    /// The temperature that drives the fan, in whole degrees: the hotter of
    /// the APU and the discrete GPU.
    pub fn representative_temperature(&self) -> (degrees: u32)
        ensures
            degrees == hotter(self.apu, self.dgpu_temp),
    {
        match (self.apu, self.dgpu_temp) {
            (Some(x), Some(y)) => if x >= y {
                x
            } else {
                y
            },
            (Some(x), None) => x,
            (None, Some(y)) => y,
            (None, None) => 0,
        }
    }
}

/// Converts whole degrees to thousandths of a degree, saturating.
pub fn to_thousandths(degrees: u32) -> (t: i32)
    ensures
        t == scaled(degrees),
{
    if degrees <= (i32::MAX / SCALE) as u32 {
        (degrees as i32) * SCALE
    } else {
        i32::MAX
    }
}

} // verus!
