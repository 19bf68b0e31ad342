//! Markup handling: linear tag-stripping of HTML to plain text with a size
//! cap, and extraction of the `<title>` element with decoding of a fixed set
//! of entities.  Both are approximations, not conformant HTML parsing:
//! malformed markup may leak tag names or mis-toggle suppression, exactly as
//! the state machines below say.

use vstd::prelude::*;
use crate::chars::{
    chars_vec,
    collapse_chars,
    collapse_ws,
    find_ci,
    find_ci_chars,
    lemma_find_ci,
    matches_ci_at,
    replace_chars,
    replace_spec,
    starts_with_ci,
    string_of,
    subvec,
    trim_chars,
    trim_spec,
};

verus! {

/// The tag scanner, one character at a time.  `in_tag` buffers the current
/// tag text into `tag`; on `'>'` the buffered tag decides entry into and exit
/// from script/style suppression by ASCII-case-insensitive prefix, and a
/// single space is emitted as a word separator.  Outside tags, characters
/// are emitted unless suppressed.  The tag buffer is cleared only on `'<'`,
/// so a stray `'>'` re-reads the previous tag text: a deliberate fidelity to
/// the linear scan, not an oversight.
pub open spec fn strip_sm(s: Seq<char>, in_tag: bool, in_script: bool, tag: Seq<char>) -> Seq<char>
    decreases s.len(),
{
    if s.len() == 0 {
        Seq::empty()
    } else {
        let c = s[0];
        let rest = s.drop_first();
        if c == '<' {
            strip_sm(rest, true, in_script, Seq::empty())
        } else if c == '>' {
            let ns = if matches_ci_at(tag, 0, "script"@) || matches_ci_at(tag, 0, "style"@) {
                true
            } else if matches_ci_at(tag, 0, "/script"@) || matches_ci_at(tag, 0, "/style"@) {
                false
            } else {
                in_script
            };
            seq![' '] + strip_sm(rest, false, ns, tag)
        } else if in_tag {
            strip_sm(rest, in_tag, in_script, tag.push(c))
        } else if !in_script {
            seq![c] + strip_sm(rest, in_tag, in_script, tag)
        } else {
            strip_sm(rest, in_tag, in_script, tag)
        }
    }
}

/// Plain text extracted from markup: tags stripped and script/style content
/// suppressed, whitespace collapsed, and the result capped at 10000
/// characters.
pub open spec fn strip_html_spec(s: Seq<char>) -> Seq<char> {
    let collapsed = collapse_ws(strip_sm(s, false, false, Seq::empty()));
    if collapsed.len() > 10000 {
        collapsed.subrange(0, 10000)
    } else {
        collapsed
    }
}

/// Suppressed content is excluded: while inside a script or style element
/// and outside a tag, the scanner drops every ordinary character.  For a run
/// `s` holding no `'<'` and no `'>'` — the text of such an element up to its
/// closing tag — scanning `s` followed by `r` from a suppressed state emits
/// exactly what scanning `r` alone emits: no character of `s` reaches the
/// output.
pub proof fn lemma_suppressed_content_dropped(s: Seq<char>, r: Seq<char>, tag: Seq<char>)
    requires
        forall|i: int| 0 <= i < s.len() ==> s[i] != '<' && s[i] != '>',
    ensures
        strip_sm(s + r, false, true, tag) == strip_sm(r, false, true, tag),
    decreases s.len(),
{
    if s.len() == 0 {
        assert(s + r =~= r);
    } else {
        assert((s + r)[0] == s[0]);
        assert((s + r).drop_first() =~= s.drop_first() + r);
        assert forall|i: int| 0 <= i < s.drop_first().len() implies s.drop_first()[i] != '<'
            && s.drop_first()[i] != '>' by {
            assert(s.drop_first()[i] == s[i + 1]);
        }
        lemma_suppressed_content_dropped(s.drop_first(), r, tag);
    }
}

/// The extracted text never exceeds the 10000-character cap: longer
/// collapsed text is cut to exactly 10000 characters.
pub proof fn lemma_strip_html_capped(s: Seq<char>)
    ensures
        strip_html_spec(s).len() <= 10000,
        collapse_ws(strip_sm(s, false, false, Seq::empty())).len() > 10000 ==> strip_html_spec(
            s,
        ).len() == 10000,
{
}

fn strip_tags(html: &Vec<char>) -> (r: Vec<char>)
    ensures
        r@ == strip_sm(html@, false, false, Seq::empty()),
{
    let pat_script = chars_vec("script");
    let pat_style = chars_vec("style");
    let pat_end_script = chars_vec("/script");
    let pat_end_style = chars_vec("/style");
    let n = html.len();
    let mut out: Vec<char> = Vec::new();
    let mut tag_buf: Vec<char> = Vec::new();
    let mut in_tag = false;
    let mut in_script = false;
    let mut i: usize = 0;
    assert(html@.skip(0) =~= html@);
    assert(out@ + strip_sm(html@, false, false, tag_buf@) =~= strip_sm(
        html@,
        false,
        false,
        Seq::empty(),
    ));
    while i < n
        invariant
            i <= n,
            n == html@.len(),
            pat_script@ == "script"@,
            pat_style@ == "style"@,
            pat_end_script@ == "/script"@,
            pat_end_style@ == "/style"@,
            strip_sm(html@, false, false, Seq::empty()) == out@ + strip_sm(
                html@.skip(i as int),
                in_tag,
                in_script,
                tag_buf@,
            ),
        decreases n - i,
    {
        assert(html@.skip(i as int).drop_first() =~= html@.skip(i as int + 1));
        let ghost out0 = out@;
        let c = html[i];
        if c == '<' {
            in_tag = true;
            tag_buf = Vec::new();
        } else if c == '>' {
            if starts_with_ci(&tag_buf, &pat_script) || starts_with_ci(&tag_buf, &pat_style) {
                in_script = true;
            } else if starts_with_ci(&tag_buf, &pat_end_script) || starts_with_ci(
                &tag_buf,
                &pat_end_style,
            ) {
                in_script = false;
            }
            in_tag = false;
            out.push(' ');
            proof {
                let rest = strip_sm(html@.skip(i as int + 1), false, in_script, tag_buf@);
                assert(out@ =~= out0 + seq![' ']);
                assert(out0 + (seq![' '] + rest) =~= (out0 + seq![' ']) + rest);
            }
        } else if in_tag {
            tag_buf.push(c);
        } else if !in_script {
            out.push(c);
            proof {
                let rest = strip_sm(html@.skip(i as int + 1), in_tag, in_script, tag_buf@);
                assert(out@ =~= out0 + seq![c]);
                assert(out0 + (seq![c] + rest) =~= (out0 + seq![c]) + rest);
            }
        }
        i = i + 1;
    }
    assert(html@.skip(n as int) =~= Seq::<char>::empty());
    assert(out@ + strip_sm(html@.skip(n as int), in_tag, in_script, tag_buf@) =~= out@);
    out
}

/// Plain text suitable for summarization, extracted from `html`: tags and
/// script/style content removed, whitespace collapsed to single spaces, and
/// the result truncated to its first 10000 characters, never splitting a
/// character.
pub fn strip_html(html: &String) -> (r: String)
    ensures
        r@ == strip_html_spec(html@),
{
    let v = chars_vec(html.as_str());
    let stripped = strip_tags(&v);
    let collapsed = collapse_chars(&stripped);
    if collapsed.len() > 10000 {
        let cut = subvec(&collapsed, 0, 10000);
        string_of(&cut)
    } else {
        string_of(&collapsed)
    }
}

/// The fixed entity table, applied by literal substring replacement in this
/// order: `&amp;` `&lt;` `&gt;` `&quot;` `&#39;` `&nbsp;`.  The passes are
/// sequential, so text such as `&amp;lt;` decodes twice; that is the
/// documented behaviour of the table, not general entity decoding.
pub open spec fn decode_entities_spec(s: Seq<char>) -> Seq<char> {
    replace_spec(
        replace_spec(
            replace_spec(
                replace_spec(
                    replace_spec(replace_spec(s, "&amp;"@, "&"@), "&lt;"@, "<"@),
                    "&gt;"@,
                    ">"@,
                ),
                "&quot;"@,
                "\""@,
            ),
            "&#39;"@,
            "'"@,
        ),
        "&nbsp;"@,
        " "@,
    )
}

fn decode_entities(v: &Vec<char>) -> (r: Vec<char>)
    ensures
        r@ == decode_entities_spec(v@),
{
    proof {
        reveal_strlit("&amp;");
        reveal_strlit("&lt;");
        reveal_strlit("&gt;");
        reveal_strlit("&quot;");
        reveal_strlit("&#39;");
        reveal_strlit("&nbsp;");
    }
    let s1 = replace_chars(v, &chars_vec("&amp;"), &chars_vec("&"));
    let s2 = replace_chars(&s1, &chars_vec("&lt;"), &chars_vec("<"));
    let s3 = replace_chars(&s2, &chars_vec("&gt;"), &chars_vec(">"));
    let s4 = replace_chars(&s3, &chars_vec("&quot;"), &chars_vec("\""));
    let s5 = replace_chars(&s4, &chars_vec("&#39;"), &chars_vec("'"));
    let s6 = replace_chars(&s5, &chars_vec("&nbsp;"), &chars_vec(" "));
    s6
}

/// The decoded, trimmed text of the first title element of `body`: the text
/// between the `'>'` closing the first case-insensitive `<title` occurrence
/// and the next case-insensitive `</title>`; nothing when no such element
/// exists or the text trims to nothing.
pub open spec fn title_of(body: Seq<char>) -> Option<Seq<char>> {
    match find_ci(body, "<title"@) {
        Option::None => None,
        Option::Some(st) => {
            let after_lt = body.skip(st);
            match find_ci(after_lt, ">"@) {
                Option::None => None,
                Option::Some(g) => {
                    let after_gt = after_lt.skip(g + 1);
                    match find_ci(after_gt, "</title>"@) {
                        Option::None => None,
                        Option::Some(e) => {
                            let t = trim_spec(decode_entities_spec(after_gt.subrange(0, e)));
                            if t.len() == 0 {
                                None
                            } else {
                                Some(t)
                            }
                        },
                    }
                },
            }
        },
    }
}

/// The title element of `body`, decoded and trimmed, if it has one with
/// nonempty text.
pub fn extract_title(body: &String) -> (r: Option<String>)
    ensures
        r.deep_view() == title_of(body@),
{
    let v = chars_vec(body.as_str());
    let pat_title = chars_vec("<title");
    let pat_gt = chars_vec(">");
    let pat_close = chars_vec("</title>");
    proof {
        reveal_strlit("<title");
        reveal_strlit(">");
        reveal_strlit("</title>");
    }
    let st = match find_ci_chars(&v, &pat_title) {
        Option::None => {
            return None;
        },
        Option::Some(st) => st,
    };
    proof {
        lemma_find_ci(v@, pat_title@);
    }
    let after_lt = subvec(&v, st, v.len());
    assert(after_lt@ =~= v@.skip(st as int));
    let g = match find_ci_chars(&after_lt, &pat_gt) {
        Option::None => {
            return None;
        },
        Option::Some(g) => g,
    };
    proof {
        lemma_find_ci(after_lt@, pat_gt@);
    }
    let after_gt = subvec(&after_lt, g + 1, after_lt.len());
    assert(after_gt@ =~= after_lt@.skip(g as int + 1));
    let e = match find_ci_chars(&after_gt, &pat_close) {
        Option::None => {
            return None;
        },
        Option::Some(e) => e,
    };
    proof {
        lemma_find_ci(after_gt@, pat_close@);
    }
    let raw = subvec(&after_gt, 0, e);
    let decoded = decode_entities(&raw);
    let t = trim_chars(&decoded);
    if t.len() == 0 {
        None
    } else {
        Some(string_of(&t))
    }
}

} // verus!
