//! Secrets on their way out of the vault and into it: the text forms in
//! which they are exported and imported, and the small notations of the
//! command line.

use crate::text::{
    from_chars, line_at, line_end, lowercased, next_line, parse_i64, parsed_i64, read_line,
    to_chars, trimmed, uppercased,
};
use vstd::prelude::*;
use vstd::string::*;

verus! {

/// A secret with its value in the clear.
#[derive(Debug, Clone)]
pub struct TransferEntry {
    pub path: String,
    pub value: String,
}

/// What a `TransferEntry` says.
pub struct TransferEntryView {
    pub path: Seq<char>,
    pub value: Seq<char>,
}

impl View for TransferEntry {
    type V = TransferEntryView;

    open spec fn view(&self) -> TransferEntryView {
        TransferEntryView { path: self.path@, value: self.value@ }
    }
}

/// What a list of entries says, one by one.
pub open spec fn transfer_views(entries: Seq<TransferEntry>) -> Seq<TransferEntryView> {
    entries.map_values(|e: TransferEntry| e@)
}

/// The text with `to` in the place of every `from`.
pub open spec fn replaced(text: Seq<char>, from: char, to: Seq<char>) -> Seq<char>
    decreases text.len(),
{
    if text.len() == 0 {
        Seq::empty()
    } else if text.last() == from {
        replaced(text.drop_last(), from, to) + to
    } else {
        replaced(text.drop_last(), from, to).push(text.last())
    }
}

/// The text with `to` in the place of every `from`.
pub fn replace_char(text: &str, from: char, to: &str) -> (r: String)
    ensures
        r@ == replaced(text@, from, to@),
{
    let chars = to_chars(text);
    let mut r = String::new();
    let mut i: usize = 0;
    assert(chars@.take(0) =~= Seq::<char>::empty());
    while i < chars.len()
        invariant
            i <= chars@.len(),
            r@ == replaced(chars@.take(i as int), from, to@),
        decreases chars@.len() - i,
    {
        let c = chars[i];
        proof {
            let upto = chars@.take(i + 1);
            assert(upto.drop_last() =~= chars@.take(i as int));
            assert(upto.last() == c);
        }
        if c == from {
            r.append(to);
        } else {
            r.push(c);
        }
        i += 1;
    }
    assert(chars@.take(i as int) =~= chars@);
    r
}

/// The name of a path in an environment file: `_` for every `/`, in upper
/// case.
pub open spec fn env_name(path: Seq<char>) -> Seq<char> {
    uppercased(replaced(path, '/', "_"@))
}

/// The line of a secret in an environment file: its name, `=`, and its
/// value between double quotes, with a backslash before every double quote
/// in it.
pub open spec fn env_line(e: TransferEntryView) -> Seq<char> {
    env_name(e.path) + "=\""@ + replaced(e.value, '"', "\\\""@) + "\"\n"@
}

/// The lines of the secrets in an environment file.
pub open spec fn env_text(entries: Seq<TransferEntryView>) -> Seq<char>
    decreases entries.len(),
{
    if entries.len() == 0 {
        Seq::empty()
    } else {
        env_text(entries.drop_last()) + env_line(entries.last())
    }
}

/// The lines of a secret in a YAML file.
pub open spec fn yaml_entry(e: TransferEntryView) -> Seq<char> {
    e.path + ":\n  value: \""@ + e.value + "\"\n"@
}

/// The lines of the secrets in a YAML file, without its heading.
pub open spec fn yaml_body(entries: Seq<TransferEntryView>) -> Seq<char>
    decreases entries.len(),
{
    if entries.len() == 0 {
        Seq::empty()
    } else {
        yaml_body(entries.drop_last()) + yaml_entry(entries.last())
    }
}

/// The secrets as a YAML file.
pub open spec fn yaml_text(entries: Seq<TransferEntryView>) -> Seq<char> {
    "# ClawBox Export\n"@ + yaml_body(entries)
}

/// The name of a path in an environment file.
pub fn env_key(path: &str) -> (name: String)
    ensures
        name@ == env_name(path@),
{
    let flat = replace_char(path, '/', "_");
    flat.as_str().to_uppercase()
}

/// The secrets as an environment file: one line for each, in order.
pub fn export_env(entries: &Vec<TransferEntry>) -> (text: String)
    ensures
        text@ == env_text(transfer_views(entries@)),
{
    let ghost views = transfer_views(entries@);
    let mut text = String::new();
    let mut i: usize = 0;
    assert(views.take(0) =~= Seq::<TransferEntryView>::empty());
    while i < entries.len()
        invariant
            i <= entries@.len(),
            views == transfer_views(entries@),
            text@ == env_text(views.take(i as int)),
        decreases entries@.len() - i,
    {
        let entry = &entries[i];
        proof {
            let upto = views.take(i + 1);
            assert(upto.drop_last() =~= views.take(i as int));
            assert(upto.last() == entry@);
        }
        let ghost before = text@;
        text.append(env_key(entry.path.as_str()).as_str());
        text.append("=\"");
        text.append(replace_char(entry.value.as_str(), '"', "\\\"").as_str());
        text.append("\"\n");
        assert(text@ =~= before + env_line(entry@));
        i += 1;
    }
    assert(views.take(i as int) =~= views);
    text
}

/// The secrets as a YAML file: a heading, then path and value of each, in
/// order.
pub fn export_yaml(entries: &Vec<TransferEntry>) -> (text: String)
    ensures
        text@ == yaml_text(transfer_views(entries@)),
{
    let ghost views = transfer_views(entries@);
    let mut text = String::from_str("# ClawBox Export\n");
    let mut i: usize = 0;
    assert(views.take(0) =~= Seq::<TransferEntryView>::empty());
    assert(text@ =~= "# ClawBox Export\n"@ + yaml_body(views.take(0)));
    while i < entries.len()
        invariant
            i <= entries@.len(),
            views == transfer_views(entries@),
            text@ == "# ClawBox Export\n"@ + yaml_body(views.take(i as int)),
        decreases entries@.len() - i,
    {
        let entry = &entries[i];
        proof {
            let upto = views.take(i + 1);
            assert(upto.drop_last() =~= views.take(i as int));
            assert(upto.last() == entry@);
        }
        let ghost before = text@;
        text.append(entry.path.as_str());
        text.append(":\n  value: \"");
        text.append(entry.value.as_str());
        text.append("\"\n");
        assert(text@ =~= before + yaml_entry(entry@));
        assert(text@ =~= "# ClawBox Export\n"@ + yaml_body(views.take(i + 1)));
        i += 1;
    }
    assert(views.take(i as int) =~= views);
    text
}

/// How many characters stand between `from` and the next `c`, or the end of
/// the text.
pub open spec fn run_before(text: Seq<char>, c: char, from: int) -> nat
    decreases text.len() - from,
{
    if from < 0 || from >= text.len() || text[from] == c {
        0
    } else {
        1 + run_before(text, c, from + 1)
    }
}

/// Where the next `c` stands at or after `from`, or the end of the text.
pub fn find_char(chars: &[char], c: char, from: usize) -> (at: usize)
    requires
        from <= chars@.len(),
    ensures
        at == from + run_before(chars@, c, from as int),
        from <= at <= chars@.len(),
{
    let mut at: usize = from;
    while at < chars.len() && chars[at] != c
        invariant
            from <= at <= chars@.len(),
            from + run_before(chars@, c, from as int) == at + run_before(chars@, c, at as int),
        decreases chars@.len() - at,
    {
        at += 1;
    }
    at
}

/// How many double quotes stand at the beginning of the text from `from` on.
pub open spec fn leading_quotes(text: Seq<char>, from: int) -> nat
    decreases text.len() - from,
{
    if from < 0 || from >= text.len() || text[from] != '"' {
        0
    } else {
        1 + leading_quotes(text, from + 1)
    }
}

/// Where the text ends without the double quotes at its end, not before `lo`.
pub open spec fn before_trailing_quotes(text: Seq<char>, lo: int, hi: int) -> int
    decreases hi - lo,
{
    if hi <= lo || hi > text.len() || text[hi - 1] != '"' {
        hi
    } else {
        before_trailing_quotes(text, lo, hi - 1)
    }
}

/// The text without the double quotes at its two ends.
pub open spec fn unquoted(text: Seq<char>) -> Seq<char> {
    let lo = leading_quotes(text, 0) as int;
    if lo >= text.len() {
        Seq::empty()
    } else {
        text.subrange(lo, before_trailing_quotes(text, lo, text.len() as int))
    }
}

/// The text without the double quotes at its two ends.
pub fn strip_quotes(text: &str) -> (r: String)
    ensures
        r@ == unquoted(text@),
{
    let chars = to_chars(text);
    let n = chars.len();
    let mut lo: usize = 0;
    while lo < n && chars[lo] == '"'
        invariant
            lo <= n,
            n == chars@.len(),
            leading_quotes(chars@, 0) == lo + leading_quotes(chars@, lo as int),
        decreases n - lo,
    {
        lo += 1;
    }
    if lo >= n {
        return String::new();
    }
    let mut hi: usize = n;
    while hi > lo && chars[hi - 1] == '"'
        invariant
            lo <= hi <= n,
            n == chars@.len(),
            before_trailing_quotes(chars@, lo as int, n as int) == before_trailing_quotes(
                chars@,
                lo as int,
                hi as int,
            ),
        decreases hi - lo,
    {
        hi -= 1;
    }
    from_chars(chars.as_slice(), lo, hi)
}

/// What a line of an environment file says. An empty line, a line that
/// begins with `#` and a line without `=` say nothing. Of any other line,
/// what stands before the first `=` is the name, which gives the path in
/// lower case with `/` for every `_`, and what stands after it is the value,
/// without the double quotes at its ends. White space at the ends of the
/// line, of the name and of the value does not count.
pub open spec fn env_entry(line: Seq<char>) -> Option<TransferEntryView> {
    let t = trimmed(line);
    let eq = run_before(t, '=', 0) as int;
    if t.len() == 0 || t[0] == '#' || eq >= t.len() {
        None
    } else {
        Some(
            TransferEntryView {
                path: replaced(lowercased(trimmed(t.subrange(0, eq))), '_', "/"@),
                value: unquoted(trimmed(t.subrange(eq + 1, t.len() as int))),
            },
        )
    }
}

/// What the lines of an environment file say, from the line that begins at
/// `from` on.
pub open spec fn env_entries_from(text: Seq<char>, from: int) -> Seq<TransferEntryView>
    decreases text.len() - from,
{
    if from < 0 || from >= text.len() {
        Seq::empty()
    } else {
        proof {
            lemma_line_end_bounds(text, from);
        }
        let rest = env_entries_from(text, next_line(text, from));
        match env_entry(line_at(text, from)) {
            Some(e) => seq![e] + rest,
            None => rest,
        }
    }
}

/// What an environment file says: the secrets of its lines, in order.
pub open spec fn parsed_env(text: Seq<char>) -> Seq<TransferEntryView> {
    env_entries_from(text, 0)
}

/// A line ends at or after the place where it begins.
pub proof fn lemma_line_end_bounds(text: Seq<char>, from: int)
    requires
        0 <= from <= text.len(),
    ensures
        from <= line_end(text, from) <= text.len(),
    decreases text.len() - from,
{
    if from < text.len() && text[from] != '\n' {
        lemma_line_end_bounds(text, from + 1);
    }
}

/// What a line of an environment file says.
pub fn parse_env_line(line: &str) -> (r: Option<TransferEntry>)
    ensures
        match r {
            Some(entry) => env_entry(line@) == Some(entry@),
            None => env_entry(line@) is None,
        },
{
    let t = to_chars(line.trim());
    let n = t.len();
    if n == 0 || t[0] == '#' {
        return None;
    }
    let eq = find_char(t.as_slice(), '=', 0);
    if eq >= n {
        return None;
    }
    let name = from_chars(t.as_slice(), 0, eq);
    let lower = name.as_str().trim().to_lowercase();
    let path = replace_char(lower.as_str(), '_', "/");
    let rest = from_chars(t.as_slice(), eq + 1, n);
    let value = strip_quotes(rest.as_str().trim());
    Some(TransferEntry { path, value })
}

/// The secrets that an environment file holds, in the order of its lines.
pub fn parse_env(content: &str) -> (entries: Vec<TransferEntry>)
    ensures
        transfer_views(entries@) == parsed_env(content@),
{
    let chars = to_chars(content);
    let text = chars.as_slice();
    let n = text.len();
    let mut entries: Vec<TransferEntry> = Vec::new();
    let mut from: usize = 0;
    assert(transfer_views(entries@) =~= Seq::<TransferEntryView>::empty());
    while from < n
        invariant
            from <= n,
            n == text@.len(),
            text@ == content@,
            parsed_env(content@) == transfer_views(entries@) + env_entries_from(text@, from as int),
        decreases n - from,
    {
        let (stop, next) = read_line(text, from);
        proof {
            lemma_line_end_bounds(text@, from as int);
        }
        let line = from_chars(text, from, stop);
        let ghost before = transfer_views(entries@);
        let ghost rest = env_entries_from(text@, next as int);
        match parse_env_line(line.as_str()) {
            Some(entry) => {
                let ghost e = entry@;
                entries.push(entry);
                assert(transfer_views(entries@) =~= before.push(e));
                assert(before + (seq![e] + rest) =~= before.push(e) + rest);
            },
            None => {},
        }
        from = next;
    }
    assert(transfer_views(entries@) + Seq::<TransferEntryView>::empty() =~= transfer_views(
        entries@,
    ));
    entries
}

/// The text without every `c` at its end.
pub open spec fn without_trailing(text: Seq<char>, c: char) -> Seq<char>
    decreases text.len(),
{
    if text.len() > 0 && text.last() == c {
        without_trailing(text.drop_last(), c)
    } else {
        text
    }
}

/// The number of seconds in `count` units of `unit` seconds, where `count`
/// is the number read or, where none was read, `fallback`. A span that does
/// not fit in 64 bits counts as `fallback` units.
pub open spec fn span_seconds(count: Option<i64>, fallback: i64, unit: i64) -> int {
    let n = match count {
        Some(n) => n,
        None => fallback,
    };
    if i64::MIN <= n * unit <= i64::MAX {
        n * unit
    } else {
        fallback * unit
    }
}

/// How far back a span such as `12h` or `7d` reaches, in seconds: hours for
/// a text that ends in `h`, 24 where no number stands before it; days for a
/// text that ends in `d`, 7 where no number stands before it; and a day for
/// any other text.
pub open spec fn since_seconds(text: Seq<char>) -> int {
    if text.len() > 0 && text.last() == 'h' {
        span_seconds(parsed_i64(without_trailing(text, 'h')), 24, 3600)
    } else if text.len() > 0 && text.last() == 'd' {
        span_seconds(parsed_i64(without_trailing(text, 'd')), 7, 86400)
    } else {
        86400
    }
}

/// The number of seconds in a span of `count` units.
fn seconds_of(count: Option<i64>, fallback: i64, unit: i64) -> (seconds: i64)
    requires
        (fallback == 24 && unit == 3600) || (fallback == 7 && unit == 86400),
    ensures
        seconds == span_seconds(count, fallback, unit),
{
    let n = match count {
        Some(n) => n,
        None => fallback,
    };
    match n.checked_mul(unit) {
        Some(seconds) => seconds,
        None => fallback * unit,
    }
}

/// Where the text ends without every `c` at its end.
fn end_without_trailing(chars: &[char], c: char) -> (end: usize)
    ensures
        end <= chars@.len(),
        chars@.subrange(0, end as int) == without_trailing(chars@, c),
{
    let mut end: usize = chars.len();
    assert(chars@.subrange(0, end as int) =~= chars@);
    while end > 0 && chars[end - 1] == c
        invariant
            end <= chars@.len(),
            without_trailing(chars@, c) == without_trailing(chars@.subrange(0, end as int), c),
        decreases end,
    {
        assert(chars@.subrange(0, end as int).drop_last() =~= chars@.subrange(0, end - 1));
        end -= 1;
    }
    proof {
        let rest = chars@.subrange(0, end as int);
        if end > 0 {
            assert(rest.last() == chars@[end - 1]);
        }
    }
    end
}

/// How far back a span such as `12h` or `7d` reaches, in seconds.
pub fn parse_since(text: &str) -> (seconds: i64)
    ensures
        seconds == since_seconds(text@),
{
    let chars = to_chars(text);
    let n = chars.len();
    if n > 0 && chars[n - 1] == 'h' {
        let end = end_without_trailing(chars.as_slice(), 'h');
        seconds_of(parse_i64(chars.as_slice(), 0, end), 24, 3600)
    } else if n > 0 && chars[n - 1] == 'd' {
        let end = end_without_trailing(chars.as_slice(), 'd');
        seconds_of(parse_i64(chars.as_slice(), 0, end), 7, 86400)
    } else {
        86400
    }
}

/// The tags of a list from `from` on: what stands between the commas,
/// without the white space at its ends.
pub open spec fn tags_from(text: Seq<char>, from: int) -> Seq<Seq<char>>
    decreases text.len() - from,
{
    if from < 0 || from > text.len() {
        Seq::empty()
    } else {
        let end = from + run_before(text, ',', from);
        let tag = trimmed(text.subrange(from, end));
        if end < text.len() {
            seq![tag] + tags_from(text, end + 1)
        } else {
            seq![tag]
        }
    }
}

/// The tags of a list with commas between them. A list without a comma is
/// one tag, the empty list too.
pub fn split_tags(text: &str) -> (tags: Vec<String>)
    ensures
        crate::texts(tags@) == tags_from(text@, 0),
{
    let chars = to_chars(text);
    let n = chars.len();
    let mut tags: Vec<String> = Vec::new();
    let mut from: usize = 0;
    assert(crate::texts(tags@) =~= Seq::<Seq<char>>::empty());
    loop
        invariant_except_break
            tags_from(text@, 0) == crate::texts(tags@) + tags_from(chars@, from as int),
        invariant
            from <= n,
            n == chars@.len(),
            chars@ == text@,
        ensures
            crate::texts(tags@) == tags_from(text@, 0),
        decreases n - from,
    {
        let end = find_char(chars.as_slice(), ',', from);
        let field = from_chars(chars.as_slice(), from, end);
        let tag = String::from_str(field.as_str().trim());
        let ghost before = crate::texts(tags@);
        let ghost t = tag@;
        tags.push(tag);
        assert(crate::texts(tags@) =~= before.push(t));
        if end < n {
            proof {
                let rest = tags_from(chars@, end + 1);
                assert(before + (seq![t] + rest) =~= before.push(t) + rest);
            }
            from = end + 1;
        } else {
            assert(before + seq![t] =~= before.push(t));
            break;
        }
    }
    tags
}

} // verus!
