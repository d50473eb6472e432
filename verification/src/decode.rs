use vstd::prelude::*;

use crate::error::Error;

verus! {

/// The bytes flate2's gzip decoder yields for the given stream. The output is
/// a function of the stream alone.
pub uninterp spec fn gunzip_of(data: Seq<u8>) -> Seq<u8>;

/// Whether flate2's gzip decoder accepts the given stream at all. Like the
/// decoded bytes, acceptance is a function of the stream alone.
pub uninterp spec fn gunzip_ok(data: Seq<u8>) -> bool;

/// The characters `String::from_utf8_lossy` yields for the given bytes:
/// invalid sequences are replaced, never rejected, and the result depends on
/// the bytes alone.
pub uninterp spec fn lossy_chars_of(data: Seq<u8>) -> Seq<char>;

/// Relies on flate2's `GzDecoder`: decompressing a gzip stream. A truncated
/// or corrupt stream fails, and only such a stream does; the failure is
/// surfaced unchanged as an error.
#[verifier::external_body]
fn gunzip(data: &Vec<u8>) -> (r: Result<Vec<u8>, Error>)
    ensures
        r is Ok <==> gunzip_ok(data@),
        r matches Ok(b) ==> b@ == gunzip_of(data@),
        r matches Err(e) ==> e is IoError,
{
    let mut dec = flate2::write::GzDecoder::new(Vec::new());
    let res = std::io::Write::write_all(&mut dec, data.as_slice()).and_then(|_| dec.finish());
    match res {
        Ok(b) => Ok(b),
        Err(e) => Err(Error::IoError(e.to_string())),
    }
}

/// Relies on `String::from_utf8_lossy`: valid UTF-8 decodes unchanged and
/// invalid sequences are replaced, so ASCII bytes come back as themselves.
#[verifier::external_body]
fn lossy_chars(data: &Vec<u8>) -> (r: Vec<char>)
    ensures
        r@ == lossy_chars_of(data@),
        (forall|i: int| 0 <= i < data@.len() ==> data@[i] < 128) ==> r@ == data@.map_values(
            |b: u8| b as char,
        ),
{
    String::from_utf8_lossy(data).chars().collect()
}

/// Relies on `String`'s `FromIterator<char>`: collecting characters in order.
#[verifier::external_body]
fn string_from_chars(chars: &Vec<char>) -> (r: String)
    ensures
        r@ == chars@,
{
    chars.iter().collect()
}

/// `text` holds one line or fewer: no line break at all. A trailing line
/// break already opens a second, empty line.
pub open spec fn one_line(t: Seq<char>) -> bool {
    forall|i: int| 0 <= i < t.len() ==> t[i] != '\n'
}

/// `text` with every occurrence of `tok` removed, scanning left to right over
/// non-overlapping occurrences.
pub open spec fn remove_token(t: Seq<char>, tok: Seq<char>) -> Seq<char>
    decreases t.len(),
{
    if tok.len() == 0 || t.len() < tok.len() {
        t
    } else if t.subrange(0, tok.len() as int) == tok {
        remove_token(t.skip(tok.len() as int), tok)
    } else {
        seq![t[0]] + remove_token(t.skip(1), tok)
    }
}

/// Whether `tok` occurs in `text` starting at position `i`.
fn token_at(text: &Vec<char>, i: usize, tok: &Vec<char>) -> (b: bool)
    requires
        i + tok@.len() <= text@.len(),
    ensures
        b == (text@.subrange(i as int, i + tok@.len()) == tok@),
{
    let n = tok.len();
    let tlen = text.len();
    let mut j: usize = 0;
    while j < n
        invariant
            j <= n,
            n == tok@.len(),
            tlen == text@.len(),
            i + n <= tlen,
            forall|m: int| 0 <= m < j ==> text@[i + m] == tok@[m],
        decreases n - j,
    {
        if text[i + j] != tok[j] {
            assert(text@.subrange(i as int, i + tok@.len())[j as int] != tok@[j as int]);
            return false;
        }
        j += 1;
    }
    proof {
        assert(text@.subrange(i as int, i + tok@.len()) =~= tok@);
    }
    true
}

/// Removes every occurrence of `tok` from `text`, scanning left to right.
pub fn remove_token_occurrences(text: &Vec<char>, tok: &Vec<char>) -> (r: Vec<char>)
    requires
        tok@.len() > 0,
    ensures
        r@ == remove_token(text@, tok@),
{
    let mut out: Vec<char> = Vec::new();
    let mut i: usize = 0;
    proof {
        assert(text@.skip(0) =~= text@);
        assert(Seq::<char>::empty() + remove_token(text@, tok@) =~= remove_token(text@, tok@));
    }
    while i < text.len()
        invariant
            i <= text@.len(),
            tok@.len() > 0,
            remove_token(text@, tok@) == out@ + remove_token(
                text@.skip(i as int),
                tok@,
            ),
        decreases text@.len() - i,
    {
        let ghost rest = text@.skip(i as int);
        if tok.len() <= text.len() - i && token_at(text, i, tok) {
            proof {
                assert(rest.subrange(0, tok@.len() as int) =~= text@.subrange(
                    i as int,
                    i + tok@.len(),
                ));
                assert(rest.skip(tok@.len() as int) =~= text@.skip(i + tok@.len()));
            }
            i += tok.len();
        } else {
            proof {
                if tok@.len() <= rest.len() {
                    assert(rest.subrange(0, tok@.len() as int) =~= text@.subrange(
                        i as int,
                        i + tok@.len(),
                    ));
                }
                assert(rest.skip(1) =~= text@.skip(i + 1));
                assert(seq![rest[0]] + remove_token(rest.skip(1), tok@) == remove_token(
                    rest,
                    tok@,
                ));
            }
            out.push(text[i]);
            proof {
                assert(out@ + remove_token(text@.skip(i + 1), tok@) =~= remove_token(
                    text@,
                    tok@,
                ));
            }
            i += 1;
        }
    }
    proof {
        assert(text@.skip(text@.len() as int) =~= Seq::<char>::empty());
        assert(out@ + Seq::<char>::empty() =~= out@);
    }
    out
}

/// Whether `text` holds one line or fewer, the decoder's heuristic for an
/// error report.
pub fn is_single_line(text: &Vec<char>) -> (r: bool)
    ensures
        r == one_line(text@),
{
    let n = text.len();
    let mut j: usize = 0;
    while j < n
        invariant
            j <= n,
            n == text@.len(),
            forall|m: int| 0 <= m < j ==> text@[m] != '\n',
        decreases n - j,
    {
        if text[j] == '\n' {
            return false;
        }
        j += 1;
    }
    true
}

/// The characters a language name may consist of in the backend's error
/// report: word characters, spaces, or hyphens.
pub open spec fn is_name_char(c: char) -> bool {
    ('a' <= c && c <= 'z') || ('A' <= c && c <= 'Z') || ('0' <= c && c <= '9') || c == '_' || c
        == ' ' || c == '-'
}

fn is_name_char_exec(c: char) -> (b: bool)
    ensures
        b == is_name_char(c),
{
    ('a' <= c && c <= 'z') || ('A' <= c && c <= 'Z') || ('0' <= c && c <= '9') || c == '_' || c
        == ' ' || c == '-'
}

/// The end of the maximal run of name characters starting at `k`.
pub open spec fn name_run_end(t: Seq<char>, k: int) -> int
    decreases t.len() - k,
{
    if 0 <= k < t.len() && is_name_char(t[k]) {
        name_run_end(t, k + 1)
    } else {
        k
    }
}

/// The opening words of the backend's rejection report, up to the quote that
/// starts the language name.
pub open spec fn report_prefix() -> Seq<char> {
    "The language '"@
}

/// The closing words of the backend's rejection report, from the quote that
/// ends the language name.
pub open spec fn report_suffix() -> Seq<char> {
    "' could not be found on the server"@
}

/// Whether the whole rejection report matches at position `i`: the opening
/// words, then a nonempty run of name characters, then the closing words
/// immediately after the run. Since the closing quote is no name character,
/// any match must end the name exactly where the run ends.
pub open spec fn match_found_at(t: Seq<char>, i: int) -> bool {
    let k = i + report_prefix().len();
    let e = name_run_end(t, k);
    &&& 0 <= i
    &&& i + report_prefix().len() <= t.len()
    &&& t.subrange(i, k) == report_prefix()
    &&& e > k
    &&& e + report_suffix().len() <= t.len()
    &&& t.subrange(e, e + report_suffix().len()) == report_suffix()
}

/// The name in the leftmost rejection report at or after position `i`, if any.
pub open spec fn found_name_from(t: Seq<char>, i: int) -> Option<Seq<char>>
    decreases t.len() - i,
{
    if i >= t.len() {
        None
    } else if match_found_at(t, i) {
        Some(t.subrange(i + report_prefix().len(), name_run_end(t, i + report_prefix().len())))
    } else {
        found_name_from(t, i + 1)
    }
}

/// The language name in the backend's rejection report, if the report pattern
/// occurs anywhere in `t`: the leftmost occurrence wins.
pub open spec fn found_language_name(t: Seq<char>) -> Option<Seq<char>> {
    found_name_from(t, 0)
}

/// Whether the literal `pat` occurs in `text` at position `i`.
fn match_literal_at(text: &Vec<char>, i: usize, pat: &str) -> (b: bool)
    requires
        i <= text@.len(),
    ensures
        b == (i + pat@.len() <= text@.len() && text@.subrange(i as int, i + pat@.len()) == pat@),
{
    let n = pat.unicode_len();
    let tlen = text.len();
    if n > tlen - i {
        return false;
    }
    let mut j: usize = 0;
    while j < n
        invariant
            j <= n,
            n == pat@.len(),
            tlen == text@.len(),
            i + n <= tlen,
            forall|m: int| 0 <= m < j ==> text@[i + m] == pat@[m],
        decreases n - j,
    {
        if text[i + j] != pat.get_char(j) {
            assert(text@.subrange(i as int, i + pat@.len())[j as int] != pat@[j as int]);
            return false;
        }
        j += 1;
    }
    proof {
        assert(text@.subrange(i as int, i + pat@.len()) =~= pat@);
    }
    true
}

/// The end of the maximal run of name characters starting at `k`.
fn name_run_end_exec(text: &Vec<char>, k: usize) -> (e: usize)
    requires
        k <= text@.len(),
    ensures
        k <= e <= text@.len(),
        e == name_run_end(text@, k as int),
{
    let mut e = k;
    while e < text.len() && is_name_char_exec(text[e])
        invariant
            k <= e <= text@.len(),
            name_run_end(text@, k as int) == name_run_end(text@, e as int),
        decreases text@.len() - e,
    {
        e += 1;
    }
    e
}

/// Searches `text` for the backend's rejection report and yields the language
/// name it carries, for the leftmost occurrence of the pattern; `None` when
/// the pattern is absent.
pub fn extract_unavailable_language(text: &Vec<char>) -> (r: Option<String>)
    ensures
        match found_language_name(text@) {
            Some(name) => r matches Some(s) && s@ == name,
            None => r is None,
        },
{
    let prefix = "The language '";
    let suffix = "' could not be found on the server";
    let plen = prefix.unicode_len();
    let mut i: usize = 0;
    while i < text.len()
        invariant
            i <= text@.len(),
            plen == report_prefix().len(),
            prefix@ == report_prefix(),
            suffix@ == report_suffix(),
            found_name_from(text@, 0) == found_name_from(text@, i as int),
        decreases text@.len() - i,
    {
        if match_literal_at(text, i, prefix) {
            let k = i + plen;
            let e = name_run_end_exec(text, k);
            if e > k && match_literal_at(text, e, suffix) {
                assert(match_found_at(text@, i as int));
                let name = copy_range(text, k, e);
                let s = string_from_chars(&name);
                return Some(s);
            }
            assert(!match_found_at(text@, i as int));
        }
        i += 1;
    }
    None
}

/// Copies `text[from..to]` into a fresh vector.
fn copy_range(text: &Vec<char>, from: usize, to: usize) -> (r: Vec<char>)
    requires
        from <= to <= text@.len(),
    ensures
        r@ == text@.subrange(from as int, to as int),
{
    let mut out: Vec<char> = Vec::new();
    let mut j: usize = from;
    while j < to
        invariant
            from <= j <= to <= text@.len(),
            out@ == text@.subrange(from as int, j as int),
        decreases to - j,
    {
        out.push(text[j]);
        proof {
            assert(out@ =~= text@.subrange(from as int, j + 1));
        }
        j += 1;
    }
    out
}

fn unknown_language_string() -> (r: String)
    ensures
        r@ == "<unknown>"@,
{
    ("<unknown>").to_owned()
}

/// What classifying token-stripped text must yield: one line or fewer is an
/// error report, whose language name is extracted when the rejection pattern
/// is present and `"<unknown>"` otherwise; more than one line is the
/// successful output, returned as it stands.
pub open spec fn classification_ok(stripped: Seq<char>, r: Result<Vec<char>, Error>) -> bool {
    if one_line(stripped) {
        match found_language_name(stripped) {
            Some(name) => r matches Err(Error::LanguageNotFound(n)) && n@ == name,
            None => r matches Err(Error::LanguageNotFound(n)) && n@ == "<unknown>"@,
        }
    } else {
        r matches Ok(out) && out@ == stripped
    }
}

/// Classifies decompressed response text: the first 16 characters are the
/// session token, every occurrence of which is removed; what remains is
/// successful output, unless it holds one line or fewer, in which case it is
/// read as an error report.
pub fn classify_text(text: &Vec<char>) -> (r: Result<Vec<char>, Error>)
    requires
        text@.len() >= 16,
    ensures
        classification_ok(remove_token(text@, text@.subrange(0, 16)), r),
{
    let tok = copy_range(text, 0, 16);
    let stripped = remove_token_occurrences(text, &tok);
    if is_single_line(&stripped) {
        match extract_unavailable_language(&stripped) {
            Some(name) => Err(Error::LanguageNotFound(name)),
            None => Err(Error::LanguageNotFound(unknown_language_string())),
        }
    } else {
        Ok(stripped)
    }
}

/// What decoding a raw response body must yield, given the characters `t` of
/// its decompressed text: a reply too short to carry a session token is read
/// as an unrecognizable error report; otherwise classification of the
/// token-stripped text decides, with the successful output handed back as a
/// string.
pub open spec fn decoded_ok(t: Seq<char>, r: Result<String, Error>) -> bool {
    if t.len() < 16 {
        r matches Err(Error::LanguageNotFound(n)) && n@ == "<unknown>"@
    } else {
        let stripped = remove_token(t, t.subrange(0, 16));
        if one_line(stripped) {
            match found_language_name(stripped) {
                Some(name) => r matches Err(Error::LanguageNotFound(n)) && n@ == name,
                None => r matches Err(Error::LanguageNotFound(n)) && n@ == "<unknown>"@,
            }
        } else {
            r matches Ok(s) && s@ == stripped
        }
    }
}

/// Decodes the backend's raw response body: decompresses the gzip stream,
/// strips every occurrence of the session token, and classifies what remains
/// as output or as a typed error. A stream the decompressor rejects fails
/// with that error, surfaced unchanged; every accepted stream is classified.
pub fn decode_response(raw: &Vec<u8>) -> (r: Result<String, Error>)
    ensures
        !gunzip_ok(raw@) ==> (r matches Err(e) && e is IoError),
        gunzip_ok(raw@) ==> decoded_ok(lossy_chars_of(gunzip_of(raw@)), r),
{
    let decompressed = match gunzip(raw) {
        Ok(b) => b,
        Err(e) => {
            return Err(e);
        },
    };
    let text = lossy_chars(&decompressed);
    if text.len() < 16 {
        return Err(Error::LanguageNotFound(unknown_language_string()));
    }
    match classify_text(&text) {
        Ok(out) => Ok(string_from_chars(&out)),
        Err(e) => Err(e),
    }
}

} // verus!
