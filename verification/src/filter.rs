use vstd::prelude::*;
use crate::chars::{chars_of, has_prefix, has_suffix, string_of};
use crate::errors::Error;

verus! {

/// A line of tool output (already stripped of carriage returns) is
/// diagnostic noise when it starts with the runtime's process-id banner,
/// starts with the deprecation-hint banner, or is an architecture-tag
/// banner: it opens a bracket and ends in `x64.` or `x86.`.
pub open spec fn is_noise_line(line: Seq<char>) -> bool {
    ||| "(node:"@.is_prefix_of(line)
    ||| "(Use `Code --trace-deprecation ..."@.is_prefix_of(line)
    ||| ("["@.is_prefix_of(line) && ("x64."@.is_suffix_of(line) || "x86."@.is_suffix_of(line)))
}

/// What a finished line contributes to the scrubbed text: nothing when it is
/// noise, otherwise the line itself.
pub open spec fn kept_line(line: Seq<char>) -> Seq<char> {
    if is_noise_line(line) {
        Seq::empty()
    } else {
        line
    }
}

/// The scrubbed form of `text` when the characters of `line` have already
/// been read from the current line: walking the remaining text, carriage
/// returns are dropped, each newline finishes a line, and the kept lines are
/// concatenated in order with no separator between them.
pub open spec fn scrub_rest(text: Seq<char>, line: Seq<char>) -> Seq<char>
    decreases text.len(),
{
    if text.len() == 0 {
        kept_line(line)
    } else if text[0] == '\n' {
        kept_line(line) + scrub_rest(text.drop_first(), Seq::empty())
    } else if text[0] == '\r' {
        scrub_rest(text.drop_first(), line)
    } else {
        scrub_rest(text.drop_first(), line.push(text[0]))
    }
}

/// The scrubbed form of `text`: split on newlines, strip carriage returns,
/// drop the noise lines, and concatenate the surviving lines in order with
/// no separator reinserted.
pub open spec fn scrub(text: Seq<char>) -> Seq<char> {
    scrub_rest(text, Seq::empty())
}

/// Whether no line of `text` is noise, when the characters of `line` have
/// already been read from the current line (carriage returns are dropped
/// before the lines are judged).
pub open spec fn no_noise_rest(text: Seq<char>, line: Seq<char>) -> bool
    decreases text.len(),
{
    if text.len() == 0 {
        !is_noise_line(line)
    } else if text[0] == '\n' {
        !is_noise_line(line) && no_noise_rest(text.drop_first(), Seq::empty())
    } else if text[0] == '\r' {
        no_noise_rest(text.drop_first(), line)
    } else {
        no_noise_rest(text.drop_first(), line.push(text[0]))
    }
}

/// Whether no line of `text`, after carriage returns are stripped, is noise.
pub open spec fn no_noise_lines(text: Seq<char>) -> bool {
    no_noise_rest(text, Seq::empty())
}

/// Whether scrubbing keeps the character `c` of a surviving line.
pub open spec fn keeps_char(c: char) -> bool {
    c != '\n' && c != '\r'
}

proof fn lemma_scrub_rest_no_noise(text: Seq<char>, line: Seq<char>)
    requires
        no_noise_rest(text, line),
    ensures
        scrub_rest(text, line) == line + text.filter(|c: char| keeps_char(c)),
    decreases text.len(),
{
    let keep = |c: char| keeps_char(c);
    if text.len() == 0 {
        assert(text.filter(keep) =~= Seq::<char>::empty()) by {
            reveal(Seq::filter);
        }
        assert(line + text.filter(keep) =~= line);
    } else {
        let rest = text.drop_first();
        assert(text =~= seq![text[0]] + rest);
        Seq::filter_distributes_over_add(seq![text[0]], rest, keep);
        assert(seq![text[0]].filter(keep) =~= if keep(text[0]) {
            seq![text[0]]
        } else {
            Seq::<char>::empty()
        }) by {
            reveal(Seq::filter);
            assert(seq![text[0]].drop_last() =~= Seq::<char>::empty());
            assert(Seq::<char>::empty().filter(keep) =~= Seq::<char>::empty());
        }
        if text[0] == '\n' {
            lemma_scrub_rest_no_noise(rest, Seq::empty());
            assert(scrub_rest(rest, Seq::empty()) == Seq::<char>::empty() + rest.filter(keep));
            assert(Seq::<char>::empty() + rest.filter(keep) =~= rest.filter(keep));
            assert(text.filter(keep) =~= rest.filter(keep));
            assert(scrub_rest(text, line) =~= line + text.filter(keep));
        } else if text[0] == '\r' {
            lemma_scrub_rest_no_noise(rest, line);
            assert(text.filter(keep) =~= rest.filter(keep));
        } else {
            lemma_scrub_rest_no_noise(rest, line.push(text[0]));
            assert(scrub_rest(text, line) == line.push(text[0]) + rest.filter(keep));
            assert(text.filter(keep) =~= seq![text[0]] + rest.filter(keep));
            assert(line.push(text[0]) + rest.filter(keep) =~= line + (seq![text[0]] + rest.filter(
                keep,
            )));
        }
    }
}

/// When no line of the text is noise, scrubbing loses nothing but the
/// newline and carriage-return characters themselves: the result is the
/// remaining characters of the text, in their original order.
pub proof fn lemma_scrub_keeps_quiet_text(text: Seq<char>)
    requires
        no_noise_lines(text),
    ensures
        scrub(text) == text.filter(|c: char| keeps_char(c)),
{
    lemma_scrub_rest_no_noise(text, Seq::empty());
    assert(Seq::<char>::empty() + text.filter(|c: char| keeps_char(c)) =~= text.filter(
        |c: char| keeps_char(c),
    ));
}

proof fn lemma_scrub_rest_single_line(s: Seq<char>, line: Seq<char>)
    requires
        forall|i: int| 0 <= i < s.len() ==> keeps_char(#[trigger] s[i]),
    ensures
        scrub_rest(s, line) == kept_line(line + s),
        no_noise_rest(s, line) == !is_noise_line(line + s),
    decreases s.len(),
{
    if s.len() == 0 {
        assert(line + s =~= line);
    } else {
        assert(keeps_char(s[0]));
        lemma_scrub_rest_single_line(s.drop_first(), line.push(s[0]));
        assert(line.push(s[0]) + s.drop_first() =~= line + s);
    }
}

/// On quiet text whose kept content does not itself form a noise line, the
/// scrub is idempotent: scrubbing the scrubbed text changes nothing. The
/// second condition cannot be dropped: two quiet lines can concatenate
/// into a noise line, which a second scrub would then remove.
pub proof fn lemma_scrub_idempotent(text: Seq<char>)
    requires
        no_noise_lines(text),
        !is_noise_line(scrub(text)),
    ensures
        scrub(scrub(text)) == scrub(text),
{
    lemma_scrub_keeps_quiet_text(text);
    let keep = |c: char| keeps_char(c);
    let u = text.filter(keep);
    assert forall|i: int| 0 <= i < u.len() implies keeps_char(#[trigger] u[i]) by {
        Seq::lemma_filter_pred(text, keep, i);
        assert(keep(u[i]));
    }
    lemma_scrub_rest_single_line(u, Seq::empty());
    assert(Seq::<char>::empty() + u =~= u);
    assert(no_noise_lines(u));
    lemma_scrub_keeps_quiet_text(u);
    assert(u.filter(keep) =~= u);
}

/// Whether `line` is a noise line.
fn is_noise(line: &Vec<char>) -> (r: bool)
    ensures
        r == is_noise_line(line@),
{
    if has_prefix(line, "(node:") {
        return true;
    }
    if has_prefix(line, "(Use `Code --trace-deprecation ...") {
        return true;
    }
    if has_prefix(line, "[") && (has_suffix(line, "x64.") || has_suffix(line, "x86.")) {
        return true;
    }
    false
}

/// The scrubbed form of `text`, computed in one pass.
pub(crate) fn scrub_chars(text: &Vec<char>) -> (out: Vec<char>)
    ensures
        out@ == scrub(text@),
{
    let mut out: Vec<char> = Vec::new();
    let mut line: Vec<char> = Vec::new();
    let mut i: usize = 0;
    proof {
        assert(text@.skip(0) =~= text@);
        assert(Seq::<char>::empty() + scrub_rest(text@, Seq::empty()) =~= scrub_rest(
            text@,
            Seq::empty(),
        ));
    }
    while i < text.len()
        invariant
            i <= text@.len(),
            out@ + scrub_rest(text@.skip(i as int), line@) == scrub(text@),
        decreases text@.len() - i,
    {
        let ghost prev_out = out@;
        let ghost prev_line = line@;
        let ghost rest = text@.skip(i as int);
        proof {
            assert(rest[0] == text@[i as int]);
            assert(rest.drop_first() =~= text@.skip((i + 1) as int));
        }
        let c = text[i];
        if c == '\n' {
            if !is_noise(&line) {
                out.append(&mut line);
                proof {
                    assert((prev_out + prev_line) + scrub_rest(rest.drop_first(), Seq::empty())
                        =~= prev_out + (prev_line + scrub_rest(rest.drop_first(), Seq::empty())));
                }
            } else {
                line = Vec::new();
                proof {
                    assert(prev_out + scrub_rest(rest.drop_first(), Seq::empty()) =~= prev_out + (
                    Seq::<char>::empty() + scrub_rest(rest.drop_first(), Seq::empty())));
                }
            }
        } else if c != '\r' {
            line.push(c);
        }
        i += 1;
    }
    proof {
        assert(text@.skip(text@.len() as int) =~= Seq::<char>::empty());
    }
    if !is_noise(&line) {
        let ghost prev_out = out@;
        let ghost prev_line = line@;
        out.append(&mut line);
        proof {
            assert(prev_out + kept_line(prev_line) == scrub(text@));
        }
    } else {
        proof {
            assert(out@ + Seq::<char>::empty() =~= out@);
        }
    }
    out
}

/// Remove the known diagnostic noise from the tool's decoded output.
///
/// The text is split on newline characters; every carriage return is
/// stripped from each line; a line is then dropped when it is noise (see
/// `is_noise_line`); the surviving lines are concatenated back in their
/// original order with no separator between them. The call always succeeds.
pub fn remove_node_stuff(input: String) -> (r: Result<String, Error>)
    ensures
        r matches Ok(cleaned) && cleaned@ == scrub(input@),
{
    let text = chars_of(input.as_str());
    let out = scrub_chars(&text);
    Ok(string_of(&out))
}

} // verus!
