//! URL detection in row text, for modifier-clicks on plain text.

use vstd::prelude::*;

verus! {

/// Characters that delimit URLs in plain text.
pub open spec fn is_delim(c: char) -> bool {
    c == ' ' || c == '\t' || c == '\n' || c == '\r' || c == '"' || c == '\'' || c == '<' || c == '>'
        || c == '`' || c == '[' || c == ']' || c == '{' || c == '}'
}

/// Punctuation that commonly hugs the end of a URL.
pub open spec fn is_trailing(c: char) -> bool {
    c == '.' || c == ',' || c == ')' || c == ']' || c == ';' || c == ':' || c == '!' || c == '?'
}

/// First delimiter at or after `i`, or the end of the text.
pub open spec fn delim_from(text: Seq<char>, i: int) -> int
    decreases text.len() - i,
{
    if i >= text.len() || is_delim(text[i]) {
        i
    } else {
        delim_from(text, i + 1)
    }
}

/// `end` moved back over trailing punctuation, no further than `floor`.
pub open spec fn trimmed(text: Seq<char>, floor: int, end: int) -> int
    decreases end - floor,
{
    if end > floor && is_trailing(text[end - 1]) {
        trimmed(text, floor, end - 1)
    } else {
        end
    }
}

/// End of the URL whose scheme stands at `start`.
pub open spec fn url_end(text: Seq<char>, scheme: Seq<char>, start: int) -> int {
    trimmed(text, start + scheme.len(), delim_from(text, start + scheme.len()))
}

/// The URL of this scheme that contains column `col`, among those that begin
/// at or after `from`.
pub open spec fn url_from(text: Seq<char>, scheme: Seq<char>, col: int, from: int) -> Option<
    Seq<char>,
>
    decreases
            (if from < text.len() {
                text.len() - from
            } else {
                0
            }),
{
    if scheme.len() == 0 || from + scheme.len() > text.len() {
        None
    } else if crate::text::occurs_at(text, scheme, from) {
        let end = url_end(text, scheme, from);
        if from <= col < end {
            Some(text.subrange(from, end))
        } else if end > from {
            url_from(text, scheme, col, end)
        } else {
            None
        }
    } else {
        url_from(text, scheme, col, from + 1)
    }
}

/// The URL that contains column `col`.
pub open spec fn url_at(text: Seq<char>, col: int) -> Option<Seq<char>> {
    match url_from(text, "https://"@, col, 0) {
        Some(url) => Some(url),
        None => match url_from(text, "http://"@, col, 0) {
            Some(url) => Some(url),
            None => url_from(text, "ftp://"@, col, 0),
        },
    }
}

fn delimits(c: char) -> (yes: bool)
    ensures
        yes == is_delim(c),
{
    c == ' ' || c == '\t' || c == '\n' || c == '\r' || c == '"' || c == '\'' || c == '<' || c == '>'
        || c == '`' || c == '[' || c == ']' || c == '{' || c == '}'
}

fn trails(c: char) -> (yes: bool)
    ensures
        yes == is_trailing(c),
{
    c == '.' || c == ',' || c == ')' || c == ']' || c == ';' || c == ':' || c == '!' || c == '?'
}

proof fn lemma_delim_from(text: Seq<char>, i: int)
    requires
        0 <= i <= text.len(),
    ensures
        i <= delim_from(text, i) <= text.len(),
        forall|k: int| i <= k < delim_from(text, i) ==> !is_delim(#[trigger] text[k]),
    decreases text.len() - i,
{
    if i < text.len() && !is_delim(text[i]) {
        lemma_delim_from(text, i + 1);
    }
}

proof fn lemma_trimmed(text: Seq<char>, floor: int, end: int)
    requires
        0 <= floor <= end <= text.len(),
    ensures
        floor <= trimmed(text, floor, end) <= end,
        trimmed(text, floor, end) > floor ==> !is_trailing(text[trimmed(text, floor, end) - 1]),
    decreases end - floor,
{
    if end > floor && is_trailing(text[end - 1]) {
        lemma_trimmed(text, floor, end - 1);
    }
}

/// End of the URL whose scheme ends at `floor`.
fn end_of_url(text: &Vec<char>, floor: usize) -> (end: usize)
    requires
        floor <= text.len(),
    ensures
        end == trimmed(text@, floor as int, delim_from(text@, floor as int)),
        floor <= end <= text.len(),
{
    let mut end: usize = floor;
    while end < text.len() && !delimits(text[end])
        invariant
            floor <= end <= text.len(),
            delim_from(text@, end as int) == delim_from(text@, floor as int),
        decreases text.len() - end,
    {
        end += 1;
    }
    while end > floor && trails(text[end - 1])
        invariant
            floor <= end <= text.len(),
            trimmed(text@, floor as int, end as int) == trimmed(
                text@,
                floor as int,
                delim_from(text@, floor as int),
            ),
        decreases end,
    {
        end -= 1;
    }
    end
}

/// The URL of one scheme that contains column `col`.
fn find_url(text: &Vec<char>, scheme: &Vec<char>, col: usize) -> (url: Option<String>)
    requires
        scheme.len() > 0,
    ensures
        url is Some <==> url_from(text@, scheme@, col as int, 0) is Some,
        url matches Some(u) ==> Some(u@) == url_from(text@, scheme@, col as int, 0),
{
    let mut from: usize = 0;
    while from <= text.len() && scheme.len() <= text.len() - from
        invariant
            scheme.len() > 0,
            from <= text.len(),
            url_from(text@, scheme@, col as int, from as int) == url_from(
                text@,
                scheme@,
                col as int,
                0,
            ),
        decreases text.len() - from,
    {
        if crate::text::stands_at(text, scheme, from) {
            let end = end_of_url(text, from + scheme.len());
            if from <= col && col < end {
                return Some(crate::text::string_of(text, from, end));
            }
            from = end;
        } else {
            from += 1;
        }
    }
    None
}

/// Return a URL containing column `col` in `row_text`, if any. Recognizes
/// http(s) and ftp explicit schemes. Trailing punctuation is trimmed.
pub fn detect_url_at(row_text: &str, col: usize) -> (url: Option<String>)
    ensures
        url is Some <==> url_at(row_text@, col as int) is Some,
        url matches Some(u) ==> Some(u@) == url_at(row_text@, col as int),
{
    proof {
        reveal_strlit("https://");
        reveal_strlit("http://");
        reveal_strlit("ftp://");
    }
    let text = crate::text::chars_of(row_text);
    if let Some(url) = find_url(&text, &crate::text::chars_of("https://"), col) {
        return Some(url);
    }
    if let Some(url) = find_url(&text, &crate::text::chars_of("http://"), col) {
        return Some(url);
    }
    find_url(&text, &crate::text::chars_of("ftp://"), col)
}

/// Is `start..end` a URL of this scheme around column `col`: the scheme, then
/// no delimiter, and no trailing punctuation at the end?
pub open spec fn is_url_around(
    text: Seq<char>,
    scheme: Seq<char>,
    col: int,
    start: int,
    end: int,
) -> bool {
    &&& 0 <= start <= col < end <= text.len()
    &&& crate::text::occurs_at(text, scheme, start)
    &&& start + scheme.len() <= end
    &&& forall|k: int| start + scheme.len() <= k < end ==> !is_delim(#[trigger] text[k])
    &&& end > start + scheme.len() ==> !is_trailing(text[end - 1])
}

/// What is detected is a stretch of the text around the column: it begins
/// with the scheme, holds no delimiter after that, and does not end in
/// punctuation.
pub proof fn law_detected_url_is_clean(text: Seq<char>, scheme: Seq<char>, col: int, from: int)
    requires
        0 <= from,
        url_from(text, scheme, col, from) is Some,
    ensures
        exists|start: int, end: int|
            #[trigger] is_url_around(text, scheme, col, start, end) && url_from(
                text,
                scheme,
                col,
                from,
            ) == Some(text.subrange(start, end)),
    decreases
            (if from < text.len() {
                text.len() - from
            } else {
                0
            }),
{
    if crate::text::occurs_at(text, scheme, from) {
        let floor = from + scheme.len();
        let end = url_end(text, scheme, from);
        lemma_delim_from(text, floor);
        lemma_trimmed(text, floor, delim_from(text, floor));
        if from <= col < end {
            assert(is_url_around(text, scheme, col, from, end));
        } else {
            law_detected_url_is_clean(text, scheme, col, end);
        }
    } else {
        law_detected_url_is_clean(text, scheme, col, from + 1);
    }
}

/// So it is whichever scheme it has.
pub proof fn law_url_lies_around_its_column(text: Seq<char>, col: int)
    requires
        url_at(text, col) is Some,
    ensures
        exists|scheme: Seq<char>, start: int, end: int|
            (scheme == "https://"@ || scheme == "http://"@ || scheme == "ftp://"@)
                && #[trigger] is_url_around(text, scheme, col, start, end) && url_at(text, col)
                == Some(text.subrange(start, end)),
{
    if url_from(text, "https://"@, col, 0) is Some {
        law_detected_url_is_clean(text, "https://"@, col, 0);
    } else if url_from(text, "http://"@, col, 0) is Some {
        law_detected_url_is_clean(text, "http://"@, col, 0);
    } else {
        law_detected_url_is_clean(text, "ftp://"@, col, 0);
    }
}

/// What delimits a URL, and the punctuation that does not belong to its end.
pub proof fn law_delimiters(c: char)
    ensures
        is_delim(c) <==> " \t\n\r\"'<>`[]{}"@.contains(c),
        is_trailing(c) <==> ".,)];:!?"@.contains(c),
{
    reveal_strlit(" \t\n\r\"'<>`[]{}");
    reveal_strlit(".,)];:!?");
    let d = " \t\n\r\"'<>`[]{}"@;
    let p = ".,)];:!?"@;
    assert(d[0] == ' ' && d[1] == '\t' && d[2] == '\n' && d[3] == '\r' && d[4] == '"' && d[5]
        == '\'' && d[6] == '<' && d[7] == '>' && d[8] == '`' && d[9] == '[' && d[10] == ']'
        && d[11] == '{' && d[12] == '}');
    assert(p[0] == '.' && p[1] == ',' && p[2] == ')' && p[3] == ']' && p[4] == ';' && p[5] == ':'
        && p[6] == '!' && p[7] == '?');
}

/// Is `start..end` a whole URL of this scheme? The scheme stands at its start;
/// it runs up to the next delimiter or the end of the row, less the
/// punctuation in front of that.
pub open spec fn is_whole_url(text: Seq<char>, scheme: Seq<char>, start: int, end: int) -> bool {
    let floor = start + scheme.len();
    &&& 0 <= start
    &&& floor <= end <= text.len()
    &&& forall|k: int| 0 <= k < scheme.len() ==> text[start + k] == #[trigger] scheme[k]
    &&& end > floor ==> !is_trailing(text[end - 1])
    &&& exists|stop: int| #[trigger] runs_to(text, floor, end, stop)
}

/// From `floor` there is no delimiter up to `stop`, where one stands or the
/// row ends, and all from `end` to there is punctuation.
pub open spec fn runs_to(text: Seq<char>, floor: int, end: int, stop: int) -> bool {
    &&& end <= stop <= text.len()
    &&& stop == text.len() || is_delim(text[stop])
    &&& forall|k: int| floor <= k < stop ==> !is_delim(#[trigger] text[k])
    &&& forall|k: int| end <= k < stop ==> is_trailing(#[trigger] text[k])
}

proof fn lemma_delim_is(text: Seq<char>, i: int, stop: int)
    requires
        0 <= i <= stop <= text.len(),
        stop == text.len() || is_delim(text[stop]),
        forall|k: int| i <= k < stop ==> !is_delim(#[trigger] text[k]),
    ensures
        delim_from(text, i) == stop,
    decreases stop - i,
{
    if i < stop {
        assert(!is_delim(text[i]));
        lemma_delim_is(text, i + 1, stop);
    }
}

proof fn lemma_trimmed_is(text: Seq<char>, floor: int, end: int, stop: int)
    requires
        0 <= floor <= end <= stop <= text.len(),
        forall|k: int| end <= k < stop ==> is_trailing(#[trigger] text[k]),
        end > floor ==> !is_trailing(text[end - 1]),
    ensures
        trimmed(text, floor, stop) == end,
    decreases stop - end,
{
    if stop > end {
        assert(is_trailing(text[stop - 1]));
        lemma_trimmed_is(text, floor, end, stop - 1);
    }
}

/// A whole URL ends where the search says, and what stands there is one.
proof fn lemma_whole_url(text: Seq<char>, scheme: Seq<char>, start: int, end: int)
    requires
        is_whole_url(text, scheme, start, end),
    ensures
        crate::text::occurs_at(text, scheme, start),
        url_end(text, scheme, start) == end,
{
    let floor = start + scheme.len();
    let stop = choose|stop: int| #[trigger] runs_to(text, floor, end, stop);
    lemma_delim_is(text, floor, stop);
    lemma_trimmed_is(text, floor, end, stop);
    assert(text.subrange(start, floor) =~= scheme);
}

proof fn lemma_trimmed_tail(text: Seq<char>, floor: int, stop: int)
    requires
        0 <= floor <= stop <= text.len(),
    ensures
        forall|k: int| trimmed(text, floor, stop) <= k < stop ==> is_trailing(#[trigger] text[k]),
    decreases stop - floor,
{
    if stop > floor && is_trailing(text[stop - 1]) {
        lemma_trimmed_tail(text, floor, stop - 1);
    }
}

proof fn lemma_delim_reached(text: Seq<char>, i: int)
    requires
        0 <= i <= text.len(),
    ensures
        delim_from(text, i) < text.len() ==> is_delim(text[delim_from(text, i)]),
    decreases text.len() - i,
{
    if i < text.len() && !is_delim(text[i]) {
        lemma_delim_reached(text, i + 1);
    }
}

/// Where the scheme stands there is a whole URL.
proof fn lemma_url_there(text: Seq<char>, scheme: Seq<char>, start: int)
    requires
        crate::text::occurs_at(text, scheme, start),
    ensures
        is_whole_url(text, scheme, start, url_end(text, scheme, start)),
{
    let floor = start + scheme.len();
    let stop = delim_from(text, floor);
    let end = url_end(text, scheme, start);
    lemma_delim_from(text, floor);
    lemma_delim_reached(text, floor);
    lemma_trimmed(text, floor, stop);
    lemma_trimmed_tail(text, floor, stop);
    assert(runs_to(text, floor, end, stop));
    assert forall|k: int| 0 <= k < scheme.len() implies text[start + k] == #[trigger] scheme[k] by {
        assert(text.subrange(start, floor)[k] == scheme[k]);
    }
}

/// No URL is missed: wherever a whole URL lies, outside of those of its scheme
/// that begin before it, each of its columns leads to exactly that URL.
pub proof fn law_every_url_is_found(
    text: Seq<char>,
    scheme: Seq<char>,
    from: int,
    start: int,
    end: int,
    col: int,
)
    requires
        scheme.len() > 0,
        0 <= from <= start,
        is_whole_url(text, scheme, start, end),
        forall|s: int, e: int|
            from <= s < start && #[trigger] is_whole_url(text, scheme, s, e) ==> e <= start,
        start <= col < end,
    ensures
        url_from(text, scheme, col, from) == Some(text.subrange(start, end)),
    decreases start - from,
{
    lemma_whole_url(text, scheme, start, end);
    if from < start {
        if crate::text::occurs_at(text, scheme, from) {
            let e = url_end(text, scheme, from);
            lemma_url_there(text, scheme, from);
            law_every_url_is_found(text, scheme, e, start, end, col);
        } else {
            law_every_url_is_found(text, scheme, from + 1, start, end, col);
        }
    }
}

/// A column in no whole URL of the scheme leads nowhere.
pub proof fn law_no_url_elsewhere(text: Seq<char>, scheme: Seq<char>, from: int, col: int)
    requires
        0 <= from,
        forall|s: int, e: int|
            #[trigger] is_whole_url(text, scheme, s, e) ==> !(s <= col < e),
    ensures
        url_from(text, scheme, col, from) is None,
    decreases
            (if from < text.len() {
                text.len() - from
            } else {
                0
            }),
{
    if scheme.len() > 0 && from + scheme.len() <= text.len() {
        if crate::text::occurs_at(text, scheme, from) {
            let e = url_end(text, scheme, from);
            lemma_url_there(text, scheme, from);
            if e > from {
                law_no_url_elsewhere(text, scheme, e, col);
            }
        } else {
            law_no_url_elsewhere(text, scheme, from + 1, col);
        }
    }
}

/// Every URL of each of the three schemes is found at each of its columns:
/// `https` before `http` before `ftp` where more than one lies there.
pub proof fn law_schemes(text: Seq<char>, scheme: Seq<char>, start: int, end: int, col: int)
    requires
        scheme == "https://"@ || scheme == "http://"@ || scheme == "ftp://"@,
        is_whole_url(text, scheme, start, end),
        forall|s: int, e: int|
            0 <= s < start && #[trigger] is_whole_url(text, scheme, s, e) ==> e <= start,
        start <= col < end,
    ensures
        url_at(text, col) is Some,
        scheme == "https://"@ ==> url_at(text, col) == Some(text.subrange(start, end)),
        scheme == "http://"@ && (forall|s: int, e: int|
            #[trigger] is_whole_url(text, "https://"@, s, e) ==> !(s <= col < e)) ==> url_at(
            text,
            col,
        ) == Some(text.subrange(start, end)),
        scheme == "ftp://"@ && (forall|s: int, e: int|
            (#[trigger] is_whole_url(text, "https://"@, s, e)) ==> !(s <= col < e)) && (forall|
            s: int,
            e: int,
        |
            (#[trigger] is_whole_url(text, "http://"@, s, e)) ==> !(s <= col < e)) ==> url_at(
            text,
            col,
        ) == Some(text.subrange(start, end)),
{
    reveal_strlit("https://");
    reveal_strlit("http://");
    reveal_strlit("ftp://");
    law_every_url_is_found(text, scheme, 0, start, end, col);
    if forall|s: int, e: int|
        #[trigger] is_whole_url(text, "https://"@, s, e) ==> !(s <= col < e) {
        law_no_url_elsewhere(text, "https://"@, 0, col);
    }
    if forall|s: int, e: int|
        #[trigger] is_whole_url(text, "http://"@, s, e) ==> !(s <= col < e) {
        law_no_url_elsewhere(text, "http://"@, 0, col);
    }
}

} // verus!
