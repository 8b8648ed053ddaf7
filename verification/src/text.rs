use vstd::prelude::*;

verus! {

/// The text of an optional string.
pub open spec fn opt_text(s: Option<String>) -> Option<Seq<char>> {
    match s {
        Some(t) => Some(t@),
        None => None,
    }
}

/// A copy of an optional string.
pub fn clone_opt(s: &Option<String>) -> (copy: Option<String>)
    ensures
        opt_text(copy) == opt_text(*s),
{
    match s {
        Some(t) => Some(t.clone()),
        None => None,
    }
}

/// The first `max` characters of `text`, or all of it where it is shorter.
/// Characters are Unicode scalar values, never bytes.
pub open spec fn truncated(text: Seq<char>, max: nat) -> Seq<char> {
    if text.len() <= max {
        text
    } else {
        text.subrange(0, max as int)
    }
}

/// Cuts `text` to at most `max` characters.
pub fn truncate_chars(text: &str, max: usize) -> (cut: String)
    ensures
        cut@ == truncated(text@, max as nat),
{
    let n: usize = text.unicode_len();
    if n <= max {
        String::from_str(text)
    } else {
        String::from_str(text.substring_char(0, max))
    }
}

/// The text of one decimal digit.
pub open spec fn digit_text(d: int) -> Seq<char> {
    if d == 0 {
        "0"@
    } else if d == 1 {
        "1"@
    } else if d == 2 {
        "2"@
    } else if d == 3 {
        "3"@
    } else if d == 4 {
        "4"@
    } else if d == 5 {
        "5"@
    } else if d == 6 {
        "6"@
    } else if d == 7 {
        "7"@
    } else if d == 8 {
        "8"@
    } else {
        "9"@
    }
}

/// The decimal digits of a natural number, most significant first, without
/// leading zeros.
pub open spec fn decimal_digits(n: nat) -> Seq<char>
    decreases n,
{
    if n < 10 {
        digit_text(n as int)
    } else {
        decimal_digits(n / 10) + digit_text((n % 10) as int)
    }
}

/// The decimal text of an integer, with a minus sign where it is negative.
pub open spec fn decimal_text(i: int) -> Seq<char> {
    if i < 0 {
        "-"@ + decimal_digits((-i) as nat)
    } else {
        decimal_digits(i as nat)
    }
}

fn digit_str(d: u64) -> (s: &'static str)
    requires
        d < 10,
    ensures
        s@ == digit_text(d as int),
{
    if d == 0 {
        "0"
    } else if d == 1 {
        "1"
    } else if d == 2 {
        "2"
    } else if d == 3 {
        "3"
    } else if d == 4 {
        "4"
    } else if d == 5 {
        "5"
    } else if d == 6 {
        "6"
    } else if d == 7 {
        "7"
    } else if d == 8 {
        "8"
    } else {
        "9"
    }
}

/// Appends the decimal digits of `n` to `out`.
pub fn push_decimal(out: &mut String, n: u64)
    ensures
        final(out)@ == old(out)@ + decimal_digits(n as nat),
    decreases n,
{
    if n >= 10 {
        push_decimal(out, n / 10);
    }
    out.append(digit_str(n % 10));
    assert(final(out)@ =~= old(out)@ + decimal_digits(n as nat));
}

/// The decimal text of `value`.
pub fn decimal_string(value: i32) -> (text: String)
    ensures
        text@ == decimal_text(value as int),
{
    let mut out = String::new();
    if value < 0 {
        out.append("-");
        let magnitude: u64 = (-(value as i64)) as u64;
        push_decimal(&mut out, magnitude);
    } else {
        push_decimal(&mut out, value as u64);
    }
    assert(out@ =~= decimal_text(value as int));
    out
}

/// Longest name shown on a document label, in characters.
pub const NAME_MAX_CHARS: usize = 20;

/// Longest specification shown on a document label, in characters.
pub const SPEC_MAX_CHARS: usize = 30;

/// Longest location name shown on a document label, in characters.
pub const LOCATION_MAX_CHARS: usize = 25;

/// Longest name shown in full on an image label, in characters.
pub const IMAGE_NAME_MAX_CHARS: usize = 15;

/// The name line of a document label.
pub open spec fn name_line_text(name: Seq<char>) -> Seq<char> {
    "物料名: "@ + truncated(name, NAME_MAX_CHARS as nat)
}

/// The specification line of a document label.
pub open spec fn spec_line_text(specification: Seq<char>) -> Seq<char> {
    "规格: "@ + truncated(specification, SPEC_MAX_CHARS as nat)
}

/// The quantity line of a document label; a record without a unit counts
/// pieces.
pub open spec fn quantity_line_text(quantity: int, unit: Option<Seq<char>>) -> Seq<char> {
    "数量: "@ + decimal_text(quantity) + " "@ + match unit {
        Some(u) => u,
        None => "个"@,
    }
}

/// The location line of a document label.
pub open spec fn location_line_text(location: Seq<char>) -> Seq<char> {
    "位置: "@ + truncated(location, LOCATION_MAX_CHARS as nat)
}

/// The name as an image label shows it: in full, or its first characters
/// followed by an ellipsis of three dots.
pub open spec fn image_name_text(name: Seq<char>) -> Seq<char> {
    if name.len() > IMAGE_NAME_MAX_CHARS {
        truncated(name, IMAGE_NAME_MAX_CHARS as nat) + "..."@
    } else {
        name
    }
}

/// The name line of a document label.
pub fn name_line(name: &str) -> (line: String)
    ensures
        line@ == name_line_text(name@),
{
    let mut line = String::from_str("物料名: ");
    let cut = truncate_chars(name, NAME_MAX_CHARS);
    line.append(cut.as_str());
    line
}

/// The specification line of a document label.
pub fn spec_line(specification: &str) -> (line: String)
    ensures
        line@ == spec_line_text(specification@),
{
    let mut line = String::from_str("规格: ");
    let cut = truncate_chars(specification, SPEC_MAX_CHARS);
    line.append(cut.as_str());
    line
}

/// The quantity line of a document label.
pub fn quantity_line(quantity: i32, unit: &Option<String>) -> (line: String)
    ensures
        line@ == quantity_line_text(quantity as int, opt_text(*unit)),
{
    let mut line = String::from_str("数量: ");
    let number = decimal_string(quantity);
    line.append(number.as_str());
    line.append(" ");
    match unit {
        Some(u) => {
            line.append(u.as_str());
        },
        None => {
            line.append("个");
        },
    }
    line
}

/// The location line of a document label.
pub fn location_line(location: &str) -> (line: String)
    ensures
        line@ == location_line_text(location@),
{
    let mut line = String::from_str("位置: ");
    let cut = truncate_chars(location, LOCATION_MAX_CHARS);
    line.append(cut.as_str());
    line
}

/// The name as an image label shows it.
pub fn image_name(name: &str) -> (shown: String)
    ensures
        shown@ == image_name_text(name@),
{
    if name.unicode_len() > IMAGE_NAME_MAX_CHARS {
        let mut shown = truncate_chars(name, IMAGE_NAME_MAX_CHARS);
        shown.append("...");
        shown
    } else {
        String::from_str(name)
    }
}

/// One character of a run and how far the pen moves after it.
#[derive(Clone, Copy, Debug, PartialEq, Eq, Structural)]
pub struct GlyphStep {
    pub ch: char,
    pub advance: u32,
}

/// A text run laid out on one baseline: its characters in order, each with
/// its advance.
#[derive(Debug)]
pub struct GlyphRun {
    pub steps: Vec<GlyphStep>,
}

/// The advance of a character that the font has no glyph for: half the
/// nominal size.
pub open spec fn fallback_advance(size: u32) -> u32 {
    size / 2
}

/// The advance that the font measured for character `i`, if any.
pub open spec fn measured_at(measured: Seq<Option<u32>>, i: int) -> Option<u32> {
    if 0 <= i < measured.len() {
        measured[i]
    } else {
        None
    }
}

/// The step of one character: its measured advance, or the fallback.
pub open spec fn step_of(ch: char, measured: Option<u32>, size: u32) -> GlyphStep {
    GlyphStep {
        ch,
        advance: match measured {
            Some(a) => a,
            None => fallback_advance(size),
        },
    }
}

/// The sum of the first `k` advances of a run.
pub open spec fn advance_sum(steps: Seq<GlyphStep>, k: int) -> int
    decreases k,
{
    if k <= 0 {
        0
    } else {
        advance_sum(steps, k - 1) + steps[k - 1].advance
    }
}

/// The first `k` advances of a run sum to at most `k` times the largest
/// advance there is.
pub proof fn lemma_advance_sum_bound(steps: Seq<GlyphStep>, k: int)
    requires
        0 <= k <= steps.len(),
    ensures
        0 <= advance_sum(steps, k) <= k * u32::MAX,
    decreases k,
{
    if k > 0 {
        lemma_advance_sum_bound(steps, k - 1);
        assert((k - 1) * u32::MAX + u32::MAX == k * u32::MAX) by (nonlinear_arith);
    }
}

/// A text cut to `max` characters is a prefix of the text, `max` characters
/// long or the whole text where that is shorter; and a run that lays it out
/// has exactly that many advance steps.
pub proof fn lemma_truncated_run_length(
    text: Seq<char>,
    max: nat,
    run: GlyphRun,
    measured: Seq<Option<u32>>,
    size: u32,
)
    requires
        run.lays_out(truncated(text, max), measured, size),
    ensures
        truncated(text, max).len() == if text.len() <= max {
            text.len()
        } else {
            max
        },
        truncated(text, max).is_prefix_of(text),
        run.steps@.len() == truncated(text, max).len(),
{
}

impl GlyphRun {
    /// Whether this run lays out `text` at `size` with the advances that the
    /// font measured: one step per character, in order.
    pub open spec fn lays_out(&self, text: Seq<char>, measured: Seq<Option<u32>>, size: u32) -> bool {
        &&& self.steps@.len() == text.len()
        &&& forall|i: int|
            0 <= i < text.len() ==> #[trigger] self.steps@[i] == step_of(
                text[i],
                measured_at(measured, i),
                size,
            )
    }

    /// Lays out `text` at nominal size `size`. `measured` holds, character by
    /// character, the advance of the font's glyph, or `None` where the font
    /// has none; such a character, and one past the end of `measured`,
    /// advances by half the nominal size.
    pub fn layout_run(text: &str, measured: &Vec<Option<u32>>, size: u32) -> (run: GlyphRun)
        ensures
            run.lays_out(text@, measured@, size),
    {
        let n: usize = text.unicode_len();
        let mut steps: Vec<GlyphStep> = Vec::new();
        let mut i: usize = 0;
        while i < n
            invariant
                n == text@.len(),
                i <= n,
                steps@.len() == i,
                forall|j: int|
                    0 <= j < i ==> #[trigger] steps@[j] == step_of(
                        text@[j],
                        measured_at(measured@, j),
                        size,
                    ),
            decreases n - i,
        {
            let ch: char = text.get_char(i);
            let found: Option<u32> = if i < measured.len() {
                measured[i]
            } else {
                None
            };
            let advance: u32 = match found {
                Some(a) => a,
                None => size / 2,
            };
            steps.push(GlyphStep { ch, advance });
            i = i + 1;
        }
        GlyphRun { steps }
    }

    /// Number of advance steps of the run.
    pub fn len(&self) -> (n: usize)
        ensures
            n == self.steps@.len(),
    {
        self.steps.len()
    }

    /// Where the pen stands before each character, and after the last: the
    /// origin plus the advances so far, accumulated left to right.
    pub fn pen_positions(&self, origin: u32) -> (pens: Vec<u64>)
        requires
            self.steps@.len() < u32::MAX,
        ensures
            pens@.len() == self.steps@.len() + 1,
            forall|k: int|
                0 <= k <= self.steps@.len() ==> #[trigger] pens@[k] == origin + advance_sum(
                    self.steps@,
                    k,
                ),
    {
        let mut pens: Vec<u64> = Vec::new();
        let mut pen: u64 = origin as u64;
        pens.push(pen);
        let mut i: usize = 0;
        while i < self.steps.len()
            invariant
                self.steps@.len() < u32::MAX,
                i <= self.steps@.len(),
                pen == origin + advance_sum(self.steps@, i as int),
                pens@.len() == i + 1,
                forall|k: int|
                    0 <= k <= i ==> #[trigger] pens@[k] == origin + advance_sum(self.steps@, k),
            decreases self.steps@.len() - i,
        {
            proof {
                lemma_advance_sum_bound(self.steps@, i as int + 1);
                assert((i + 1) * u32::MAX <= (u32::MAX - 1) * u32::MAX) by (nonlinear_arith)
                    requires
                        i + 1 <= u32::MAX - 1,
                ;
            }
            pen = pen + self.steps[i].advance as u64;
            pens.push(pen);
            i = i + 1;
        }
        pens
    }
}

} // verus!
