//! The per-turn context message ("MOIM"): a block of tagged lines that is
//! prepended to the latest user message of a conversation, telling the model
//! the current time, the working directory, how close the conversation is to
//! compaction, how much of its turn budget is used, and what the extensions
//! contribute.
use vstd::prelude::*;
use crate::conversation::{
    has_unexpected_issue, has_unexpected_issues, injected, is_expected_issue,
    lemma_unexpected_issue_is_one_of_them, insert_moim, latest_user_index,
    Conversation, Message,
};
use crate::text::{
    occurs_at, zero_padded, push_zero_padded, chars_of, decimal_text, is_blank, is_blank_text, join_lines, join_with, push_char,
    push_decimal_i64, push_decimal_u64, replaced, lemma_replaced_front_mismatch, lemma_replaced_passes, contains_text,
    lemma_join_shows_inner_line,
};

verus! {

/// Below this context window (in tokens) no turn context is injected.
pub const MIN_CONTEXT_FOR_MOIM: usize = 32000;

/// The tag that frames the whole turn context.
pub const TURN_CONTEXT_TAG: &'static str = "turn-context";

/// How far the current run is into its turn budget.
#[derive(Debug, Clone, Copy)]
pub struct MoimStatus {
    pub turns_taken: Option<u32>,
    pub max_turns: Option<u32>,
}

impl Default for MoimStatus {
    fn default() -> (s: Self)
        ensures
            s.turns_taken is None,
            s.max_turns is None,
    {
        MoimStatus { turns_taken: None, max_turns: None }
    }
}

/// What the turn context is composed from.
///
/// `compaction_point` is the token count at which the conversation gets
/// compacted: the context limit times the compaction threshold, truncated
/// to an integer. It is absent when there is no context limit or threshold,
/// when the limit is zero, or when the threshold is not strictly between
/// zero and one.
#[derive(Debug, Clone)]
pub struct TurnContext {
    pub working_dir: String,
    pub total_tokens: Option<i32>,
    pub context_limit: Option<usize>,
    pub compaction_point: Option<i32>,
    pub turns_taken: Option<u32>,
    pub max_turns: Option<u32>,
}

impl Default for TurnContext {
    fn default() -> (c: Self)
        ensures
            c.working_dir@ == Seq::<char>::empty(),
            c.total_tokens is None,
            c.context_limit is None,
            c.compaction_point is None,
            c.turns_taken is None,
            c.max_turns is None,
    {
        TurnContext {
            working_dir: String::new(),
            total_tokens: None,
            context_limit: None,
            compaction_point: None,
            turns_taken: None,
            max_turns: None,
        }
    }
}

/// The context limit that applies to a turn: the provider's own limit when
/// it reports one, else the limit of the session's model configuration.
pub fn resolve_context_limit(provider_limit: Option<usize>, session_limit: Option<usize>) -> (r:
    Option<usize>)
    ensures
        r == (match provider_limit {
            Some(l) => Some(l),
            None => session_limit,
        }),
{
    match provider_limit {
        Some(l) => Some(l),
        None => session_limit,
    }
}

/// Assembles the turn context from what the session and the run report.
/// A session without a working directory stands for the current directory.
pub fn build_turn_context(
    working_dir: Option<String>,
    total_tokens: Option<i32>,
    context_limit: Option<usize>,
    compaction_point: Option<i32>,
    status: MoimStatus,
) -> (c: TurnContext)
    ensures
        c.working_dir@ == (match working_dir {
            Some(w) => w@,
            None => "."@,
        }),
        c.total_tokens == total_tokens,
        c.context_limit == context_limit,
        c.compaction_point == compaction_point,
        c.turns_taken == status.turns_taken,
        c.max_turns == status.max_turns,
{
    let dir = match working_dir {
        Some(w) => w,
        None => String::from_str("."),
    };
    TurnContext {
        working_dir: dir,
        total_tokens,
        context_limit,
        compaction_point,
        turns_taken: status.turns_taken,
        max_turns: status.max_turns,
    }
}

/// The turn context is left out when the context window is known to be
/// smaller than [`MIN_CONTEXT_FOR_MOIM`].
pub open spec fn skips_moim(context: &TurnContext) -> bool {
    context.context_limit matches Some(limit) && limit < MIN_CONTEXT_FOR_MOIM
}

pub fn should_skip_moim(context: &TurnContext) -> (b: bool)
    ensures
        b == skips_moim(context),
{
    match context.context_limit {
        Some(limit) => limit < MIN_CONTEXT_FOR_MOIM,
        None => false,
    }
}

pub open spec fn open_tag_text(name: Seq<char>) -> Seq<char> {
    "<"@ + name + ">"@
}

pub open spec fn close_tag_text(name: Seq<char>) -> Seq<char> {
    "</"@ + name + ">"@
}

/// The entity that stands for a character in XML text, or the character.
pub open spec fn escape_char(c: char) -> Seq<char> {
    if c == '&' {
        "&amp;"@
    } else if c == '<' {
        "&lt;"@
    } else if c == '>' {
        "&gt;"@
    } else {
        seq![c]
    }
}

/// XML text escaping: `&`, `<` and `>` become entities, all else stays.
pub open spec fn escaped_text(s: Seq<char>) -> Seq<char>
    decreases s.len(),
{
    if s.len() == 0 {
        Seq::empty()
    } else {
        escaped_text(s.drop_last()) + escape_char(s.last())
    }
}

pub open spec fn tag_text(name: Seq<char>, value: Seq<char>) -> Seq<char> {
    open_tag_text(name) + escaped_text(value) + close_tag_text(name)
}

/// `<name>`
pub fn open_tag(name: &str) -> (s: String)
    ensures
        s@ == open_tag_text(name@),
{
    let mut s = String::from_str("<");
    s.append(name);
    s.append(">");
    s
}

/// `</name>`
pub fn close_tag(name: &str) -> (s: String)
    ensures
        s@ == close_tag_text(name@),
{
    let mut s = String::from_str("</");
    s.append(name);
    s.append(">");
    s
}

/// `<name>value</name>`, with the value escaped.
pub fn tag(name: &str, value: &str) -> (s: String)
    ensures
        s@ == tag_text(name@, value@),
{
    let mut s = open_tag(name);
    let escaped = escape_xml_text(value);
    s.append(escaped.as_str());
    let close = close_tag(name);
    s.append(close.as_str());
    s
}

/// Replaces `&` by `&amp;`, then `<` by `&lt;`, then `>` by `&gt;`.
pub fn escape_xml_text(value: &str) -> (s: String)
    ensures
        s@ == escaped_text(value@),
{
    let cs = chars_of(value);
    let mut s = String::new();
    for i in 0..cs.len()
        invariant
            cs@ == value@,
            s@ == escaped_text(value@.take(i as int)),
    {
        let c = cs[i];
        if c == '&' {
            s.append("&amp;");
        } else if c == '<' {
            s.append("&lt;");
        } else if c == '>' {
            s.append("&gt;");
        } else {
            push_char(&mut s, c);
        }
        assert(value@.take(i + 1).drop_last() =~= value@.take(i as int));
    }
    assert(value@.take(cs.len() as int) =~= value@);
    s
}

/// `a - b` clamped to the range of `i32` (`i32::saturating_sub`).
pub open spec fn saturating_sub_i32(a: int, b: int) -> int {
    if a - b > i32::MAX {
        i32::MAX as int
    } else if a - b < i32::MIN {
        i32::MIN as int
    } else {
        a - b
    }
}

/// Integer division rounding toward zero, as Rust's `/` does.
pub open spec fn div_toward_zero(a: int, b: int) -> int {
    if a >= 0 {
        a / b
    } else {
        -((-a) / b)
    }
}

/// How many thousand tokens remain until the compaction point, rounded
/// toward zero (negative once the point is passed).
pub open spec fn compaction_thousands(point: int, total: int) -> int {
    div_toward_zero(saturating_sub_i32(point, total), 1000)
}

pub open spec fn compaction_text(thousands: int) -> Seq<char> {
    "~"@ + decimal_text(thousands) + "k tokens remaining"@
}

/// The compaction line: present once the conversation has used at least
/// half of the tokens at which it gets compacted. It tells how many
/// thousand tokens remain until then.
pub open spec fn compaction_line(context: &TurnContext) -> Option<Seq<char>> {
    match (context.total_tokens, context.compaction_point) {
        (Some(total), Some(point)) => if total <= 0 || point <= 0 || 2 * total < point {
            None
        } else {
            Some(compaction_text(compaction_thousands(point as int, total as int)))
        },
        _ => None,
    }
}

pub fn compaction_remaining_line(context: &TurnContext) -> (r: Option<String>)
    ensures
        r matches Some(s) ==> compaction_line(context) == Some(s@),
        r is None <==> compaction_line(context) is None,
{
    let total = match context.total_tokens {
        Some(t) => t,
        None => return None,
    };
    let point = match context.compaction_point {
        Some(p) => p,
        None => return None,
    };
    if total <= 0 || point <= 0 || (total as i64) * 2 < point as i64 {
        return None;
    }
    let diff: i64 = point as i64 - total as i64;
    let thousands: i64 = if diff >= 0 {
        diff / 1000
    } else {
        -((-diff) / 1000)
    };
    let mut s = String::from_str("~");
    push_decimal_i64(&mut s, thousands);
    s.append("k tokens remaining");
    Some(s)
}

/// The turn budget line: present once at least half of a nonzero turn
/// budget is used, as `taken/max used`.
pub open spec fn turn_budget(context: &TurnContext) -> Option<Seq<char>> {
    match (context.turns_taken, context.max_turns) {
        (Some(taken), Some(max)) => if max == 0 || 2 * taken < max {
            None
        } else {
            Some(decimal_text(taken as int) + "/"@ + decimal_text(max as int) + " used"@)
        },
        _ => None,
    }
}

pub fn turn_budget_line(context: &TurnContext) -> (r: Option<String>)
    ensures
        r matches Some(s) ==> turn_budget(context) == Some(s@),
        r is None <==> turn_budget(context) is None,
{
    let taken = match context.turns_taken {
        Some(t) => t,
        None => return None,
    };
    let max = match context.max_turns {
        Some(m) => m,
        None => return None,
    };
    if max == 0 || (taken as u64) * 2 < max as u64 {
        return None;
    }
    let mut s = String::new();
    push_decimal_u64(&mut s, taken as u64);
    s.append("/");
    push_decimal_u64(&mut s, max as u64);
    s.append(" used");
    Some(s)
}

/// The tagged line for a value when there is one.
pub open spec fn optional_tag_line(name: Seq<char>, value: Option<Seq<char>>) -> Seq<Seq<char>> {
    match value {
        Some(v) => seq![tag_text(name, v)],
        None => Seq::empty(),
    }
}

/// Each extension part that is not blank, after an empty separator line.
pub open spec fn extension_lines(parts: Seq<Seq<char>>) -> Seq<Seq<char>>
    decreases parts.len(),
{
    if parts.len() == 0 {
        Seq::empty()
    } else if is_blank_text(parts.last()) {
        extension_lines(parts.drop_last())
    } else {
        extension_lines(parts.drop_last()) + seq![Seq::empty(), parts.last()]
    }
}

/// The lines of the turn context, before they are joined by newlines.
pub open spec fn moim_lines(context: &TurnContext, timestamp: Seq<char>, parts: Seq<Seq<char>>) -> Seq<
    Seq<char>,
> {
    seq![
        open_tag_text(TURN_CONTEXT_TAG@),
        tag_text("current-time"@, timestamp),
        tag_text("working-directory"@, context.working_dir@),
    ] + optional_tag_line("compaction"@, compaction_line(context))
        + optional_tag_line("turn-budget"@, turn_budget(context)) + extension_lines(
        parts,
    ) + seq![close_tag_text(TURN_CONTEXT_TAG@)]
}

/// The texts of a sequence of strings.
pub open spec fn string_views(strings: Seq<String>) -> Seq<Seq<char>> {
    strings.map_values(|s: String| s@)
}

/// The turn context text for a given timestamp.
pub open spec fn moim_text(context: &TurnContext, timestamp: Seq<char>, parts: Seq<Seq<char>>) -> Seq<
    char,
> {
    join_with(moim_lines(context, timestamp, parts), "\n"@)
}

/// A local date and time, to the minute, as the caller read it from the
/// clock.
#[derive(Debug, Clone, Copy)]
pub struct LocalMinute {
    pub year: i32,
    pub month: u32,
    pub day: u32,
    pub hour: u32,
    pub minute: u32,
}

/// The year as `%Y` writes it: four digits, zero-padded, with a sign in
/// front when it lies outside 0 to 9999.
pub open spec fn year_text(year: int) -> Seq<char> {
    if 0 <= year <= 9999 {
        zero_padded(year as nat, 4)
    } else if year < 0 {
        "-"@ + zero_padded((-year) as nat, 4)
    } else {
        "+"@ + zero_padded(year as nat, 4)
    }
}

/// The timestamp of the turn context: `YYYY-MM-DD HH:MM:00`, the fields
/// zero-padded to two digits and the seconds always written as `00`.
pub open spec fn minute_timestamp_text(t: LocalMinute) -> Seq<char> {
    year_text(t.year as int) + "-"@ + zero_padded(t.month as nat, 2) + "-"@ + zero_padded(
        t.day as nat,
        2,
    ) + " "@ + zero_padded(t.hour as nat, 2) + ":"@ + zero_padded(t.minute as nat, 2) + ":00"@
}

pub fn minute_timestamp(t: &LocalMinute) -> (s: String)
    ensures
        s@ == minute_timestamp_text(*t),
{
    let mut s = String::new();
    if t.year < 0 {
        s.append("-");
        let magnitude: u64 = (-(t.year as i64)) as u64;
        push_zero_padded(&mut s, magnitude, 4);
    } else if t.year > 9999 {
        s.append("+");
        push_zero_padded(&mut s, t.year as u64, 4);
    } else {
        push_zero_padded(&mut s, t.year as u64, 4);
    }
    s.append("-");
    push_zero_padded(&mut s, t.month as u64, 2);
    s.append("-");
    push_zero_padded(&mut s, t.day as u64, 2);
    s.append(" ");
    push_zero_padded(&mut s, t.hour as u64, 2);
    s.append(":");
    push_zero_padded(&mut s, t.minute as u64, 2);
    s.append(":00");
    s
}

/// Composes the turn context for the local time given, to the minute.
pub fn compose_moim(context: &TurnContext, now: &LocalMinute, extension_parts: Vec<String>) -> (s:
    String)
    ensures
        s@ == moim_text(context, minute_timestamp_text(*now), string_views(extension_parts@)),
        is_framed(s@),
{
    let timestamp = minute_timestamp(now);
    compose_moim_at(context, timestamp.as_str(), extension_parts)
}

/// Composes the turn context for the given timestamp: the opening tag, the
/// time, the working directory, the compaction and turn budget lines when
/// present, every non-blank extension part after an empty line, and the
/// closing tag, joined by newlines.
pub fn compose_moim_at(context: &TurnContext, timestamp: &str, extension_parts: Vec<String>) -> (s:
    String)
    ensures
        s@ == moim_text(context, timestamp@, string_views(extension_parts@)),
        is_framed(s@),
{
    let ghost parts_view = string_views(extension_parts@);
    let mut lines: Vec<String> = Vec::new();
    lines.push(open_tag(TURN_CONTEXT_TAG));
    lines.push(tag("current-time", timestamp));
    lines.push(tag("working-directory", context.working_dir.as_str()));
    let ghost head = lines@.map_values(|l: String| l@);
    assert(head =~= seq![
        open_tag_text(TURN_CONTEXT_TAG@),
        tag_text("current-time"@, timestamp@),
        tag_text("working-directory"@, context.working_dir@),
    ]);
    let compaction = compaction_remaining_line(context);
    match compaction {
        Some(value) => {
            lines.push(tag("compaction", value.as_str()));
        },
        None => {},
    }
    let budget = turn_budget_line(context);
    match budget {
        Some(value) => {
            lines.push(tag("turn-budget", value.as_str()));
        },
        None => {},
    }
    let ghost fixed = lines@.map_values(|l: String| l@);
    assert(fixed =~= head + optional_tag_line("compaction"@, compaction_line(context)) + optional_tag_line("turn-budget"@, turn_budget(context)));
    let n = extension_parts.len();
    let ghost all_parts = extension_parts@;
    let mut rest = extension_parts;
    let mut i: usize = 0;
    while i < n
        invariant
            n == all_parts.len(),
            parts_view == string_views(all_parts),
            i <= n,
            rest@ == all_parts.skip(i as int),
            lines@.map_values(|l: String| l@) == fixed + extension_lines(parts_view.take(i as int)),
        decreases n - i,
    {
        let ghost before = lines@.map_values(|l: String| l@);
        assert(parts_view.take(i + 1).drop_last() =~= parts_view.take(i as int));
        assert(rest@[0] == all_parts[i as int]);
        assert(parts_view.take(i + 1).last() == all_parts[i as int]@);
        let part = rest.remove(0);
        assert(rest@ =~= all_parts.skip(i + 1));
        let blank = is_blank(part.as_str());
        if !blank {
            lines.push(String::new());
            lines.push(part);
            assert(lines@.map_values(|l: String| l@) =~= before + seq![
                Seq::<char>::empty(),
                parts_view[i as int],
            ]);
        }
        i = i + 1;
    }
    assert(parts_view.take(n as int) =~= parts_view);
    let ghost body = lines@.map_values(|l: String| l@);
    lines.push(close_tag(TURN_CONTEXT_TAG));
    let ghost all = lines@.map_values(|l: String| l@);
    assert(all =~= body.push(close_tag_text(TURN_CONTEXT_TAG@)));
    assert(all =~= moim_lines(context, timestamp@, parts_view));
    let s = join_lines(&lines, "\n");
    proof {
        lemma_moim_is_framed(context, timestamp@, parts_view);
    }
    s
}

/// The text opens with the turn context tag on a line of its own and
/// closes with the closing tag on a line of its own.
pub open spec fn is_framed(text: Seq<char>) -> bool {
    let open = open_tag_text(TURN_CONTEXT_TAG@) + "\n"@;
    let close = "\n"@ + close_tag_text(TURN_CONTEXT_TAG@);
    &&& text.len() >= open.len()
    &&& text.len() >= close.len()
    &&& text.subrange(0, open.len() as int) == open
    &&& text.subrange(text.len() - close.len(), text.len() as int) == close
}

/// Whatever the context, time and extension parts, the turn context is
/// framed by its tag: it starts with `<turn-context>` and a newline and
/// ends with a newline and `</turn-context>`.
pub proof fn lemma_moim_is_framed(context: &TurnContext, timestamp: Seq<char>, parts: Seq<Seq<char>>)
    ensures
        is_framed(moim_text(context, timestamp, parts)),
{
    let lines = moim_lines(context, timestamp, parts);
    let sep = "\n"@;
    lemma_join_starts_with_first(lines, sep);
    let t = join_with(lines, sep);
    assert(t == join_with(lines.drop_last(), sep) + sep + lines.last());
    let close = close_tag_text(TURN_CONTEXT_TAG@);
    assert(lines.last() == close);
    assert(t.subrange(t.len() - (sep + close).len(), t.len() as int) =~= sep + close);
}

/// The turn context is left out exactly when the context window is known
/// and smaller than 32000 tokens: a known window of 32000 tokens or more,
/// however large, keeps it, and so does an unknown one.
pub proof fn lemma_skipping_follows_the_context_limit(context: &TurnContext)
    ensures
        MIN_CONTEXT_FOR_MOIM == 32000,
        context.context_limit is None ==> !skips_moim(context),
        context.context_limit matches Some(l) ==> (skips_moim(context) <==> l < 32000),
        forall|a: usize, b: usize|
            a <= b && context.context_limit == Some(b) && skips_moim(context) ==> skips_moim(
                &TurnContext { context_limit: Some(a), ..*context },
            ),
{
}

/// The turn context shows, each on a line of its own between other lines,
/// the time, the working directory, the compaction line whenever the
/// conversation has used at least half of the tokens at which it gets
/// compacted, and the turn budget whenever at least half of the turns are
/// taken, whatever else it shows.
pub proof fn lemma_moim_shows_its_lines(context: &TurnContext, timestamp: Seq<char>, parts: Seq<Seq<char>>)
    ensures
        contains_text(
            moim_text(context, timestamp, parts),
            "\n"@ + tag_text("current-time"@, timestamp) + "\n"@,
        ),
        contains_text(
            moim_text(context, timestamp, parts),
            "\n"@ + tag_text("working-directory"@, context.working_dir@) + "\n"@,
        ),
        match (context.total_tokens, context.compaction_point) {
            (Some(total), Some(point)) => 0 < total && 0 < point && point <= 2 * total
                ==> contains_text(
                moim_text(context, timestamp, parts),
                "\n"@ + tag_text(
                    "compaction"@,
                    "~"@ + decimal_text(compaction_thousands(point as int, total as int))
                        + "k tokens remaining"@,
                ) + "\n"@,
            ),
            _ => true,
        },
        match (context.turns_taken, context.max_turns) {
            (Some(taken), Some(max)) => 0 < max && max <= 2 * taken ==> contains_text(
                moim_text(context, timestamp, parts),
                "\n"@ + tag_text(
                    "turn-budget"@,
                    decimal_text(taken as int) + "/"@ + decimal_text(max as int) + " used"@,
                ) + "\n"@,
            ),
            _ => true,
        },
{
    let sep = "\n"@;
    let open = open_tag_text(TURN_CONTEXT_TAG@);
    let cur = tag_text("current-time"@, timestamp);
    let wd = tag_text("working-directory"@, context.working_dir@);
    let comp = optional_tag_line("compaction"@, compaction_line(context));
    let budget = optional_tag_line("turn-budget"@, turn_budget(context));
    let tail = extension_lines(parts) + seq![close_tag_text(TURN_CONTEXT_TAG@)];
    let lines = moim_lines(context, timestamp, parts);
    assert(lines =~= seq![open] + seq![cur] + (seq![wd] + comp + budget + tail));
    lemma_join_shows_inner_line(seq![open], cur, seq![wd] + comp + budget + tail, sep);
    assert(lines =~= seq![open, cur] + seq![wd] + (comp + budget + tail));
    lemma_join_shows_inner_line(seq![open, cur], wd, comp + budget + tail, sep);
    if compaction_line(context) is Some {
        let c = compaction_line(context).unwrap();
        assert(lines =~= seq![open, cur, wd] + seq![tag_text("compaction"@, c)] + (budget + tail));
        lemma_join_shows_inner_line(seq![open, cur, wd], tag_text("compaction"@, c), budget + tail, sep);
    }
    if turn_budget(context) is Some {
        let b = turn_budget(context).unwrap();
        assert(lines =~= (seq![open, cur, wd] + comp) + seq![tag_text("turn-budget"@, b)] + tail);
        lemma_join_shows_inner_line(seq![open, cur, wd] + comp, tag_text("turn-budget"@, b), tail, sep);
    }
}

/// The compaction line shows once the conversation has used at least half
/// of the tokens at which it gets compacted (both counts positive), and
/// tells how many whole thousand tokens remain until then, counted toward
/// zero, negative once the point is passed.
pub proof fn lemma_compaction_line_from_half(context: &TurnContext)
    ensures
        match (context.total_tokens, context.compaction_point) {
            (Some(total), Some(point)) => {
                &&& compaction_line(context) is Some <==> (0 < total && 0 < point && point <= 2
                    * total)
                &&& (0 < total && 0 < point && point <= 2 * total && total <= point)
                    ==> compaction_line(context) == Some(
                    "~"@ + decimal_text((point - total) / 1000) + "k tokens remaining"@,
                )
                &&& (0 < total && 0 < point && point <= 2 * total && point < total)
                    ==> compaction_line(context) == Some(
                    "~"@ + decimal_text(-((total - point) / 1000)) + "k tokens remaining"@,
                )
            },
            _ => compaction_line(context) is None,
        },
{
}

/// The turn budget shows once at least half of the allowed turns (more
/// than none) are taken, as the turns taken, a slash, the turns allowed
/// and ` used`.
pub proof fn lemma_turn_budget_from_half(context: &TurnContext)
    ensures
        match (context.turns_taken, context.max_turns) {
            (Some(taken), Some(max)) => {
                &&& turn_budget(context) is Some <==> (0 < max && max <= 2 * taken)
                &&& (0 < max && max <= 2 * taken) ==> turn_budget(context) == Some(
                    decimal_text(taken as int) + "/"@ + decimal_text(max as int) + " used"@,
                )
            },
            _ => turn_budget(context) is None,
        },
{
}

/// Joining at least two lines starts with the first line and a separator.
proof fn lemma_join_starts_with_first(lines: Seq<Seq<char>>, sep: Seq<char>)
    requires
        lines.len() >= 2,
    ensures
        join_with(lines, sep).len() >= lines[0].len() + sep.len(),
        join_with(lines, sep).subrange(0, lines[0].len() + sep.len() as int) == lines[0] + sep,
    decreases lines.len(),
{
    if lines.len() == 2 {
        assert(lines.drop_last().len() == 1);
        assert(join_with(lines.drop_last(), sep) == lines[0]);
        assert(join_with(lines, sep).subrange(0, lines[0].len() + sep.len() as int) =~= lines[0] + sep);
    } else {
        let init = lines.drop_last();
        lemma_join_starts_with_first(init, sep);
        let j = join_with(init, sep);
        assert(join_with(lines, sep) == j + sep + lines.last());
        assert((j + sep + lines.last()).subrange(0, lines[0].len() + sep.len() as int) =~= j.subrange(0, lines[0].len() + sep.len() as int));
    }
}

/// Escaping a concatenation escapes each part.
pub proof fn lemma_escape_concat(a: Seq<char>, b: Seq<char>)
    ensures
        escaped_text(a + b) == escaped_text(a) + escaped_text(b),
    decreases b.len(),
{
    if b.len() == 0 {
        assert(a + b =~= a);
        assert(escaped_text(a) + escaped_text(b) =~= escaped_text(a));
    } else {
        lemma_escape_concat(a, b.drop_last());
        assert((a + b).drop_last() =~= a + b.drop_last());
        assert((a + b).last() == b.last());
        assert(escaped_text(a) + escaped_text(b) =~= escaped_text(a) + escaped_text(b.drop_last())
            + escape_char(b.last()));
    }
}

proof fn lemma_escape_front(c: char, rest: Seq<char>)
    ensures
        escaped_text(seq![c] + rest) == escape_char(c) + escaped_text(rest),
{
    lemma_escape_concat(seq![c], rest);
    assert(seq![c].drop_last() =~= Seq::<char>::empty());
    assert(seq![c].last() == c);
    assert(escaped_text(Seq::<char>::empty()) =~= Seq::<char>::empty());
    assert(escaped_text(seq![c]) =~= escape_char(c));
}

proof fn lemma_escape_length(s: Seq<char>)
    ensures
        escaped_text(s).len() >= s.len(),
    decreases s.len(),
{
    reveal_strlit("&amp;");
    reveal_strlit("&lt;");
    reveal_strlit("&gt;");
    if s.len() > 0 {
        lemma_escape_length(s.drop_last());
    }
}

/// An escaped value holds no `<` and no `>`: whatever it is, it cannot open
/// or close a tag of the turn context.
pub proof fn lemma_escaped_text_has_no_brackets(s: Seq<char>)
    ensures
        forall|i: int|
            0 <= i < escaped_text(s).len() ==> #[trigger] escaped_text(s)[i] != '<' && escaped_text(s)[i]
                != '>',
    decreases s.len(),
{
    reveal_strlit("&amp;");
    reveal_strlit("&lt;");
    reveal_strlit("&gt;");
    if s.len() > 0 {
        lemma_escaped_text_has_no_brackets(s.drop_last());
        let a = escaped_text(s.drop_last());
        let b = escape_char(s.last());
        assert forall|i: int| 0 <= i < escaped_text(s).len() implies #[trigger] escaped_text(s)[i]
            != '<' && escaped_text(s)[i] != '>' by {
            if i < a.len() {
                assert(escaped_text(s)[i] == a[i]);
            } else {
                assert(escaped_text(s)[i] == b[i - a.len()]);
            }
        }
    }
}

/// Escaping loses nothing: two values that escape to the same text are the
/// same value.
pub proof fn lemma_escaping_is_injective(a: Seq<char>, b: Seq<char>)
    requires
        escaped_text(a) == escaped_text(b),
    ensures
        a == b,
    decreases a.len(),
{
    reveal_strlit("&amp;");
    reveal_strlit("&lt;");
    reveal_strlit("&gt;");
    lemma_escape_length(a);
    lemma_escape_length(b);
    if a.len() == 0 || b.len() == 0 {
        assert(a =~= b);
    } else {
        let a0 = a[0];
        let b0 = b[0];
        let a1 = a.drop_first();
        let b1 = b.drop_first();
        assert(a =~= seq![a0] + a1);
        assert(b =~= seq![b0] + b1);
        lemma_escape_front(a0, a1);
        lemma_escape_front(b0, b1);
        let ea = escape_char(a0);
        let eb = escape_char(b0);
        let t = escaped_text(a);
        assert(t == ea + escaped_text(a1));
        assert(t == eb + escaped_text(b1));
        assert(t[0] == ea[0]);
        assert(t[0] == eb[0]);
        if ea.len() > 1 {
            assert(t[1] == ea[1]);
        }
        if eb.len() > 1 {
            assert(t[1] == eb[1]);
        }
        assert(a0 == b0);
        assert(escaped_text(a1) =~= t.subrange(ea.len() as int, t.len() as int));
        assert(escaped_text(b1) =~= t.subrange(eb.len() as int, t.len() as int));
        lemma_escaping_is_injective(a1, b1);
        assert(a =~= b);
    }
}

/// Once the compaction line shows, it keeps showing as the conversation
/// grows, and the number of thousands it counts down never goes up.
pub proof fn lemma_compaction_line_counts_down(
    earlier: &TurnContext,
    later: &TurnContext,
    point: i32,
    earlier_total: i32,
    later_total: i32,
)
    requires
        earlier.compaction_point == Some(point),
        later.compaction_point == Some(point),
        earlier.total_tokens == Some(earlier_total),
        later.total_tokens == Some(later_total),
        0 < earlier_total <= later_total,
        compaction_line(earlier) is Some,
    ensures
        compaction_line(earlier) == Some(
            compaction_text(compaction_thousands(point as int, earlier_total as int)),
        ),
        compaction_line(later) == Some(
            compaction_text(compaction_thousands(point as int, later_total as int)),
        ),
        compaction_thousands(point as int, later_total as int) <= compaction_thousands(
            point as int,
            earlier_total as int,
        ),
{
    let a = point - earlier_total;
    let b = point - later_total;
    assert(saturating_sub_i32(point as int, earlier_total as int) == a);
    assert(saturating_sub_i32(point as int, later_total as int) == b);
    assert(div_toward_zero(b, 1000) <= div_toward_zero(a, 1000)) by (nonlinear_arith)
        requires
            b <= a,
    {
        if b >= 0 {
            assert(b / 1000 <= a / 1000);
        } else if a >= 0 {
            assert(-((-b) / 1000) <= 0);
            assert(a / 1000 >= 0);
        } else {
            assert((-a) / 1000 <= (-b) / 1000);
        }
    }
}

/// In escaped text every `&` starts one of the entities `&amp;`, `&lt;`
/// or `&gt;`.
pub proof fn lemma_escaped_ampersands_start_entities(s: Seq<char>)
    ensures
        forall|i: int|
            0 <= i < escaped_text(s).len() && #[trigger] escaped_text(s)[i] == '&' ==> occurs_at(
                escaped_text(s),
                "&amp;"@,
                i,
            ) || occurs_at(escaped_text(s), "&lt;"@, i) || occurs_at(escaped_text(s), "&gt;"@, i),
    decreases s.len(),
{
    reveal_strlit("&amp;");
    reveal_strlit("&lt;");
    reveal_strlit("&gt;");
    if s.len() > 0 {
        lemma_escaped_ampersands_start_entities(s.drop_last());
        let a = escaped_text(s.drop_last());
        let b = escape_char(s.last());
        let t = escaped_text(s);
        assert(t == a + b);
        assert forall|i: int| 0 <= i < t.len() && #[trigger] t[i] == '&' implies occurs_at(
            t,
            "&amp;"@,
            i,
        ) || occurs_at(t, "&lt;"@, i) || occurs_at(t, "&gt;"@, i) by {
            if i < a.len() {
                assert(t[i] == a[i]);
                if occurs_at(a, "&amp;"@, i) {
                    assert(t.subrange(i, i + 5) =~= a.subrange(i, i + 5));
                } else if occurs_at(a, "&lt;"@, i) {
                    assert(t.subrange(i, i + 4) =~= a.subrange(i, i + 4));
                } else {
                    assert(t.subrange(i, i + 4) =~= a.subrange(i, i + 4));
                }
            } else {
                assert(t[i] == b[i - a.len()]);
                assert(i == a.len());
                assert(t.subrange(i, i + b.len()) =~= b);
            }
        }
    }
}

/// Decoding escaped text: each entity `&amp;`, `&lt;`, `&gt;` becomes the
/// character it stands for, every other character stays.
pub open spec fn unescaped_text(t: Seq<char>) -> Seq<char>
    decreases t.len(),
{
    if t.len() == 0 {
        Seq::empty()
    } else if t.len() >= 5 && t.subrange(0, 5) == "&amp;"@ {
        seq!['&'] + unescaped_text(t.subrange(5, t.len() as int))
    } else if t.len() >= 4 && t.subrange(0, 4) == "&lt;"@ {
        seq!['<'] + unescaped_text(t.subrange(4, t.len() as int))
    } else if t.len() >= 4 && t.subrange(0, 4) == "&gt;"@ {
        seq!['>'] + unescaped_text(t.subrange(4, t.len() as int))
    } else {
        seq![t[0]] + unescaped_text(t.drop_first())
    }
}

proof fn lemma_unescape_front(c: char, rest: Seq<char>)
    ensures
        unescaped_text(escape_char(c) + rest) == seq![c] + unescaped_text(rest),
{
    reveal_strlit("&amp;");
    reveal_strlit("&lt;");
    reveal_strlit("&gt;");
    let t = escape_char(c) + rest;
    let e = escape_char(c);
    assert(t.subrange(e.len() as int, t.len() as int) =~= rest);
    if c == '&' {
        assert(t.subrange(0, 5) =~= "&amp;"@);
    } else if c == '<' {
        assert(t.subrange(0, 4) =~= "&lt;"@);
        if t.len() >= 5 {
            assert(t.subrange(0, 5)[1] != "&amp;"@[1]);
        }
    } else if c == '>' {
        assert(t.subrange(0, 4) =~= "&gt;"@);
        if t.len() >= 5 {
            assert(t.subrange(0, 5)[1] != "&amp;"@[1]);
        }
        assert(t.subrange(0, 4)[1] != "&lt;"@[1]);
    } else {
        assert(t[0] == c);
        if t.len() >= 5 {
            assert(t.subrange(0, 5)[0] != "&amp;"@[0]);
        }
        if t.len() >= 4 {
            assert(t.subrange(0, 4)[0] != "&lt;"@[0]);
            assert(t.subrange(0, 4)[0] != "&gt;"@[0]);
        }
        assert(t.drop_first() =~= rest);
    }
}

/// Decoding the entities of escaped text gives the value back.
pub proof fn lemma_unescaping_undoes_escaping(s: Seq<char>)
    ensures
        unescaped_text(escaped_text(s)) == s,
    decreases s.len(),
{
    if s.len() == 0 {
        assert(escaped_text(s) =~= Seq::<char>::empty());
    } else {
        let rest = s.drop_first();
        assert(s =~= seq![s[0]] + rest);
        lemma_escape_front(s[0], rest);
        lemma_unescape_front(s[0], escaped_text(rest));
        lemma_unescaping_undoes_escaping(rest);
    }
}

/// The text made of `f`'s piece for each character of `s`, in order.
spec fn pieces(s: Seq<char>, f: spec_fn(char) -> Seq<char>) -> Seq<char>
    decreases s.len(),
{
    if s.len() == 0 {
        Seq::empty()
    } else {
        f(s[0]) + pieces(s.drop_first(), f)
    }
}

/// Escaped text after `&lt;` has been turned back into `<`.
spec fn lt_restored_char(c: char) -> Seq<char> {
    if c == '<' {
        seq!['<']
    } else {
        escape_char(c)
    }
}

/// Escaped text after `&lt;` and `&gt;` have been turned back.
spec fn amp_only_char(c: char) -> Seq<char> {
    if c == '&' {
        "&amp;"@
    } else {
        seq![c]
    }
}

proof fn lemma_escaped_text_in_pieces(s: Seq<char>)
    ensures
        escaped_text(s) == pieces(s, |c: char| escape_char(c)),
    decreases s.len(),
{
    if s.len() == 0 {
        assert(escaped_text(s) =~= Seq::<char>::empty());
    } else {
        let rest = s.drop_first();
        assert(s =~= seq![s[0]] + rest);
        lemma_escape_front(s[0], rest);
        lemma_escaped_text_in_pieces(rest);
    }
}

proof fn lemma_single_pieces(s: Seq<char>)
    ensures
        pieces(s, |c: char| seq![c]) == s,
    decreases s.len(),
{
    if s.len() > 0 {
        lemma_single_pieces(s.drop_first());
        assert(s =~= seq![s[0]] + s.drop_first());
    }
}

/// One replacement pass maps the pieces of `f` to those of `g` when it does
/// so piece by piece, whatever follows each piece.
proof fn lemma_replaced_pieces(
    s: Seq<char>,
    f: spec_fn(char) -> Seq<char>,
    g: spec_fn(char) -> Seq<char>,
    pat: Seq<char>,
    rep: Seq<char>,
)
    requires
        forall|c: char, rest: Seq<char>|
            #[trigger] replaced(f(c) + rest, pat, rep) == g(c) + replaced(rest, pat, rep),
    ensures
        replaced(pieces(s, f), pat, rep) == pieces(s, g),
    decreases s.len(),
{
    if s.len() == 0 {
        assert(pieces(s, f) =~= Seq::<char>::empty());
        assert(pieces(s, g) =~= Seq::<char>::empty());
    } else {
        lemma_replaced_pieces(s.drop_first(), f, g, pat, rep);
        assert(replaced(f(s[0]) + pieces(s.drop_first(), f), pat, rep) == g(s[0]) + replaced(
            pieces(s.drop_first(), f),
            pat,
            rep,
        ));
    }
}

/// A piece that starts with `&` but is not `pat` passes unchanged.
proof fn lemma_entity_passes(e: Seq<char>, rest: Seq<char>, pat: Seq<char>, rep: Seq<char>, j: int)
    requires
        e.len() > 0,
        pat.len() > 0,
        e[0] == '&',
        pat[0] == '&',
        0 <= j < pat.len(),
        j < e.len(),
        e[j] != pat[j],
        forall|i: int| 1 <= i < e.len() ==> #[trigger] e[i] != '&',
    ensures
        replaced(e + rest, pat, rep) == e + replaced(rest, pat, rep),
{
    let t = e + rest;
    assert(t[j] == e[j]);
    lemma_replaced_front_mismatch(t, pat, rep, j);
    let tail = e.drop_first();
    assert(t.drop_first() =~= tail + rest);
    assert forall|i: int| 0 <= i < tail.len() implies #[trigger] tail[i] != pat[0] by {
        assert(tail[i] == e[i + 1]);
    }
    lemma_replaced_passes(tail, rest, pat, rep);
    assert(e =~= seq![e[0]] + tail);
    assert(seq![t[0]] + (tail + replaced(rest, pat, rep)) =~= e + replaced(rest, pat, rep));
}

/// A single character other than `&` passes unchanged.
proof fn lemma_char_passes(c: char, rest: Seq<char>, pat: Seq<char>, rep: Seq<char>)
    requires
        pat.len() > 0,
        pat[0] == '&',
        c != '&',
    ensures
        replaced(seq![c] + rest, pat, rep) == seq![c] + replaced(rest, pat, rep),
{
    lemma_replaced_passes(seq![c], rest, pat, rep);
}

proof fn lemma_matched_entity(e: Seq<char>, rest: Seq<char>, rep: Seq<char>)
    requires
        e.len() > 0,
    ensures
        replaced(e + rest, e, rep) == rep + replaced(rest, e, rep),
{
    let t = e + rest;
    assert(t.subrange(0, e.len() as int) =~= e);
    assert(t.subrange(e.len() as int, t.len() as int) =~= rest);
}

proof fn lemma_lt_pass(c: char, rest: Seq<char>)
    ensures
        replaced(escape_char(c) + rest, "&lt;"@, "<"@) == lt_restored_char(c) + replaced(
            rest,
            "&lt;"@,
            "<"@,
        ),
{
    reveal_strlit("&amp;");
    reveal_strlit("&lt;");
    reveal_strlit("&gt;");
    reveal_strlit("<");
    if c == '&' {
        lemma_entity_passes("&amp;"@, rest, "&lt;"@, "<"@, 1);
    } else if c == '<' {
        lemma_matched_entity("&lt;"@, rest, "<"@);
        assert("<"@ =~= seq!['<']);
    } else if c == '>' {
        lemma_entity_passes("&gt;"@, rest, "&lt;"@, "<"@, 1);
    } else {
        lemma_char_passes(c, rest, "&lt;"@, "<"@);
    }
}

proof fn lemma_gt_pass(c: char, rest: Seq<char>)
    ensures
        replaced(lt_restored_char(c) + rest, "&gt;"@, ">"@) == amp_only_char(c) + replaced(
            rest,
            "&gt;"@,
            ">"@,
        ),
{
    reveal_strlit("&amp;");
    reveal_strlit("&gt;");
    reveal_strlit(">");
    if c == '&' {
        lemma_entity_passes("&amp;"@, rest, "&gt;"@, ">"@, 1);
    } else if c == '>' {
        lemma_matched_entity("&gt;"@, rest, ">"@);
        assert(">"@ =~= seq!['>']);
    } else {
        lemma_char_passes(c, rest, "&gt;"@, ">"@);
    }
}

proof fn lemma_amp_pass(c: char, rest: Seq<char>)
    ensures
        replaced(amp_only_char(c) + rest, "&amp;"@, "&"@) == seq![c] + replaced(rest, "&amp;"@, "&"@),
{
    reveal_strlit("&amp;");
    reveal_strlit("&");
    if c == '&' {
        lemma_matched_entity("&amp;"@, rest, "&"@);
        assert("&"@ =~= seq!['&']);
    } else {
        lemma_char_passes(c, rest, "&amp;"@, "&"@);
    }
}

/// Replacing `&lt;` by `<`, then `&gt;` by `>`, then `&amp;` by `&` in
/// escaped text gives the value back.
pub proof fn lemma_replacements_undo_escaping(s: Seq<char>)
    ensures
        replaced(replaced(replaced(escaped_text(s), "&lt;"@, "<"@), "&gt;"@, ">"@), "&amp;"@, "&"@)
            == s,
{
    let esc = |c: char| escape_char(c);
    let lt = |c: char| lt_restored_char(c);
    let amp = |c: char| amp_only_char(c);
    let one = |c: char| seq![c];
    lemma_escaped_text_in_pieces(s);
    assert forall|c: char, rest: Seq<char>|
        #[trigger] replaced(esc(c) + rest, "&lt;"@, "<"@) == lt(c) + replaced(rest, "&lt;"@, "<"@) by {
        lemma_lt_pass(c, rest);
    }
    lemma_replaced_pieces(s, esc, lt, "&lt;"@, "<"@);
    assert forall|c: char, rest: Seq<char>|
        #[trigger] replaced(lt(c) + rest, "&gt;"@, ">"@) == amp(c) + replaced(rest, "&gt;"@, ">"@) by {
        lemma_gt_pass(c, rest);
    }
    lemma_replaced_pieces(s, lt, amp, "&gt;"@, ">"@);
    assert forall|c: char, rest: Seq<char>|
        #[trigger] replaced(amp(c) + rest, "&amp;"@, "&"@) == one(c) + replaced(rest, "&amp;"@, "&"@) by {
        lemma_amp_pass(c, rest);
    }
    lemma_replaced_pieces(s, amp, one, "&amp;"@, "&"@);
    lemma_single_pieces(s);
}

/// After the repair, the repaired conversation is used when every issue it
/// reported is expected, and the conversation as it was when any is not.
pub proof fn lemma_repair_is_kept_unless_unexpected(
    repaired: Conversation,
    issues: Vec<String>,
    r: (MoimStage, MoimAction),
)
    requires
        after_repair(repaired, issues, r),
    ensures
        r.0 is Finished,
        (forall|i: int| 0 <= i < issues@.len() ==> is_expected_issue(#[trigger] issues@[i]@)) ==> r.1
            == MoimAction::UseRepaired(repaired),
        (exists|i: int| 0 <= i < issues@.len() && !is_expected_issue(#[trigger] issues@[i]@)) ==> r.1
            == MoimAction::DiscardRepair(issues),
{
    lemma_unexpected_issue_is_one_of_them(issues@);
}

/// Where the injection of the turn context into a conversation stands.
pub enum MoimStage {
    /// Waiting for the extensions' parts, the clock and the messages.
    CollectingParts(TurnContext),
    /// Waiting for the conversation with the turn context to be repaired.
    Repairing,
    Finished,
}

/// What the caller learned while injecting the turn context.
pub enum MoimEvent {
    /// The extensions' parts, the local time and a copy of the messages.
    PartsCollected(Vec<String>, LocalMinute, Vec<Message>),
    /// The repaired conversation and the issues its repair reported.
    Repaired(Conversation, Vec<String>),
}

/// What the caller does next.
pub enum MoimAction {
    /// Collect the extensions' parts, read the clock, copy the messages.
    CollectParts,
    /// Repair the conversation made of these messages.
    Repair(Vec<Message>),
    /// Use the conversation as it was.
    KeepConversation,
    /// Use the conversation as it was: its repair reported these issues,
    /// some of them unexpected.
    DiscardRepair(Vec<String>),
    /// Use the repaired conversation.
    UseRepaired(Conversation),
}

/// The first step: nothing is injected when the context window is too
/// small; otherwise the parts are collected.
pub fn start_moim(context: TurnContext) -> (r: (MoimStage, MoimAction))
    ensures
        skips_moim(&context) ==> r.0 is Finished && r.1 is KeepConversation,
        !skips_moim(&context) ==> r.0 == MoimStage::CollectingParts(context) && r.1 is CollectParts,
{
    if should_skip_moim(&context) {
        (MoimStage::Finished, MoimAction::KeepConversation)
    } else {
        (MoimStage::CollectingParts(context), MoimAction::CollectParts)
    }
}

/// The event is the one the stage waits for.
pub open spec fn moim_expects(stage: MoimStage, event: MoimEvent) -> bool {
    match stage {
        MoimStage::CollectingParts(_) => event is PartsCollected,
        MoimStage::Repairing => event is Repaired,
        MoimStage::Finished => false,
    }
}

/// Once the turn context is composed: keep the conversation when no
/// message comes from the user, else repair the messages with the turn
/// context placed into the latest user message.
pub open spec fn after_parts(messages: Seq<Message>, moim: Seq<char>, r: (MoimStage, MoimAction)) -> bool {
    &&& latest_user_index(messages) < 0 ==> r.0 is Finished && r.1 is KeepConversation
    &&& latest_user_index(messages) >= 0 ==> r.0 is Repairing && (r.1 matches MoimAction::Repair(v)
        && exists|m: String| m@ == moim && #[trigger] injected(messages, m, v@))
}

/// Once repaired: keep the repair unless it reported an unexpected issue.
pub open spec fn after_repair(repaired: Conversation, issues: Vec<String>, r: (MoimStage, MoimAction)) -> bool {
    &&& r.0 is Finished
    &&& has_unexpected_issue(issues@) ==> r.1 == MoimAction::DiscardRepair(issues)
    &&& !has_unexpected_issue(issues@) ==> r.1 == MoimAction::UseRepaired(repaired)
}

/// One step of injecting the turn context: compose it and place it into
/// the latest user message (keeping the conversation when no message comes
/// from the user), then keep the repaired conversation unless its repair
/// reported an unexpected issue.
pub fn moim_step(stage: MoimStage, event: MoimEvent) -> (r: (MoimStage, MoimAction))
    requires
        moim_expects(stage, event),
    ensures
        match (stage, event) {
            (MoimStage::CollectingParts(context), MoimEvent::PartsCollected(parts, now, messages)) =>
                after_parts(
                messages@,
                moim_text(&context, minute_timestamp_text(now), string_views(parts@)),
                r,
            ),
            (_, MoimEvent::Repaired(repaired, issues)) => after_repair(repaired, issues, r),
            _ => false,
        },
{
    match (stage, event) {
        (MoimStage::CollectingParts(context), MoimEvent::PartsCollected(parts, now, messages)) => {
            let moim = compose_moim(&context, &now, parts);
            let ghost text = moim;
            let ghost before = messages@;
            let r = match insert_moim(messages, moim) {
                None => (MoimStage::Finished, MoimAction::KeepConversation),
                Some(v) => {
                    assert(injected(before, text, v@));
                    assert(latest_user_index(before) >= 0);
                    let r = (MoimStage::Repairing, MoimAction::Repair(v));
                    assert(r.1 matches MoimAction::Repair(w) && injected(before, text, w@));
                    assert(exists|m: String| m@ == text@ && #[trigger] injected(before, m, v@));
                    r
                },
            };
            assert(after_parts(before, text@, r));
            r
        },
        (_, MoimEvent::Repaired(repaired, issues)) => {
            let unexpected = has_unexpected_issues(&issues);
            let r = if unexpected {
                (MoimStage::Finished, MoimAction::DiscardRepair(issues))
            } else {
                (MoimStage::Finished, MoimAction::UseRepaired(repaired))
            };
            assert(after_repair(repaired, issues, r));
            r
        },
        // Excluded by the precondition: the stage waits for another event.
        _ => (MoimStage::Finished, MoimAction::KeepConversation),
    }
}

} // verus!
