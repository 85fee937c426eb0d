//! The variable store: parsing and rewriting of `.env`-style text.
//!
//! Reading the file, and writing it back, is the caller's business; the
//! functions here work on its content, so every lookup and every rewrite
//! rule is verified.

use vstd::prelude::*;

verus! {

use vstd::string::StringSliceAdditionalSpecFns;
use crate::bytes::{
    lit, trim, trim_spec, subvec, push_all, bytes_eq, starts_with, find_byte, first_idx,
    lemma_first_idx, find_subseq, first_match_idx, is_match_at, contains_seq,
    lemma_first_match_idx, replace_all, replace_all_spec,
};
use crate::sse::{Framer, complete_lines, line_rest};
use crate::engine::Mode;

/// Every line of the text, the unterminated last one included.
pub open spec fn all_lines(s: Seq<u8>) -> Seq<Seq<u8>> {
    complete_lines(s) + (if line_rest(s).len() > 0 {
        seq![line_rest(s)]
    } else {
        Seq::<Seq<u8>>::empty()
    })
}

/// Splits text into its lines.
pub fn split_lines(content: &Vec<u8>) -> (r: Vec<Vec<u8>>)
    ensures
        r@.map_values(|l: Vec<u8>| l@) == all_lines(content@),
{
    let mut f = Framer::new();
    let mut lines = f.feed(content);
    proof {
        assert(Seq::<u8>::empty() + content@ =~= content@);
    }
    let rest = f.into_rest();
    let ghost pre = lines@.map_values(|l: Vec<u8>| l@);
    if rest.len() > 0 {
        lines.push(rest);
        proof {
            assert(lines@.map_values(|l: Vec<u8>| l@) =~= all_lines(content@));
        }
    } else {
        proof {
            assert(pre + Seq::<Seq<u8>>::empty() =~= pre);
            assert(lines@.map_values(|l: Vec<u8>| l@) =~= all_lines(content@));
        }
    }
    lines
}

pub open spec fn trim_q_start(s: Seq<u8>) -> Seq<u8>
    decreases s.len(),
{
    if s.len() > 0 && s[0] == 34 {
        trim_q_start(s.drop_first())
    } else {
        s
    }
}

pub open spec fn trim_q_end(s: Seq<u8>) -> Seq<u8>
    decreases s.len(),
{
    if s.len() > 0 && s[s.len() - 1] == 34 {
        trim_q_end(s.drop_last())
    } else {
        s
    }
}

/// Both ends stripped of double quotes.
pub open spec fn trim_quotes_spec(s: Seq<u8>) -> Seq<u8> {
    trim_q_end(trim_q_start(s))
}

proof fn lemma_trim_q_start_at(s: Seq<u8>, i: int)
    requires
        0 <= i <= s.len(),
        forall|k: int| 0 <= k < i ==> s[k] == 34,
        i == s.len() || s[i] != 34,
    ensures
        trim_q_start(s) =~= s.subrange(i, s.len() as int),
    decreases i,
{
    if i == 0 {
        assert(s.subrange(0, s.len() as int) =~= s);
    } else {
        let t = s.drop_first();
        assert forall|k: int| 0 <= k < i - 1 implies t[k] == 34 by {
            assert(t[k] == s[k + 1]);
        }
        lemma_trim_q_start_at(t, i - 1);
        assert(t.subrange(i - 1, t.len() as int) =~= s.subrange(i, s.len() as int));
    }
}

proof fn lemma_trim_q_end_at(s: Seq<u8>, j: int)
    requires
        0 <= j <= s.len(),
        forall|k: int| j <= k < s.len() ==> s[k] == 34,
        j == 0 || s[j - 1] != 34,
    ensures
        trim_q_end(s) =~= s.subrange(0, j),
    decreases s.len() - j,
{
    if j == s.len() {
        assert(s.subrange(0, j) =~= s);
    } else {
        let t = s.drop_last();
        lemma_trim_q_end_at(t, j);
        assert(t.subrange(0, j) =~= s.subrange(0, j));
    }
}

/// Strips double quotes from both ends.
pub fn trim_quotes(s: &Vec<u8>) -> (r: Vec<u8>)
    ensures
        r@ == trim_quotes_spec(s@),
{
    let mut i: usize = 0;
    while i < s.len() && s[i] == 34
        invariant
            0 <= i <= s@.len(),
            forall|k: int| 0 <= k < i ==> s@[k] == 34,
        decreases s@.len() - i,
    {
        i += 1;
    }
    proof {
        lemma_trim_q_start_at(s@, i as int);
    }
    let t = subvec(s, i, s.len());
    let mut j: usize = t.len();
    while j > 0 && t[j - 1] == 34
        invariant
            0 <= j <= t@.len(),
            forall|k: int| j <= k < t@.len() ==> t@[k] == 34,
        decreases j,
    {
        j -= 1;
    }
    proof {
        lemma_trim_q_end_at(t@, j as int);
    }
    subvec(&t, 0, j)
}

/// The text between the first and the second `=` of a line (or to its
/// end when there is only one), which is how the store reads values.
pub open spec fn second_field(l: Seq<u8>) -> Seq<u8> {
    if first_idx(l, 61) >= l.len() {
        Seq::empty()
    } else {
        let rest = l.subrange(first_idx(l, 61) as int + 1, l.len() as int);
        if first_idx(rest, 61) >= rest.len() {
            rest
        } else {
            rest.subrange(0, first_idx(rest, 61) as int)
        }
    }
}

fn second_field_exec(l: &Vec<u8>) -> (r: Vec<u8>)
    ensures
        r@ == second_field(l@),
{
    proof {
        lemma_first_idx(l@, 61);
    }
    let ll = l.len();
    match find_byte(l, 61) {
        Some(i) => {
            let rest = subvec(l, i + 1, ll);
            proof {
                lemma_first_idx(rest@, 61);
            }
            match find_byte(&rest, 61) {
                Some(j) => subvec(&rest, 0, j),
                None => rest,
            }
        },
        None => Vec::new(),
    }
}

/// A looked-up value, cleaned: whitespace trimmed, quotes stripped.
pub open spec fn clean_value(v: Seq<u8>) -> Seq<u8> {
    trim_quotes_spec(trim_spec(v))
}

/// First line starting with the given prefix.
pub open spec fn env_find(lines: Seq<Seq<u8>>, prefix: Seq<u8>) -> Option<Seq<u8>>
    decreases lines.len(),
{
    if lines.len() == 0 {
        None
    } else if crate::upstream::is_prefix(prefix, lines[0]) {
        Some(lines[0])
    } else {
        env_find(lines.drop_first(), prefix)
    }
}

/// What a lookup of `key` in the store text yields: the first line
/// starting `key=`, read and cleaned as the store reads values.
pub open spec fn env_lookup_spec(content: Seq<u8>, key: Seq<u8>) -> Option<Seq<u8>> {
    match env_find(all_lines(content), key + seq![61u8]) {
        Some(l) => Some(clean_value(second_field(l))),
        None => None,
    }
}

/// Looks a key up in store text.
pub fn env_lookup(content: &Vec<u8>, key: &Vec<u8>) -> (r: Option<Vec<u8>>)
    ensures
        match r {
            Some(v) => env_lookup_spec(content@, key@) == Some(v@),
            None => env_lookup_spec(content@, key@) is None,
        },
{
    let mut prefix = subvec(key, 0, key.len());
    prefix.push(61);
    proof {
        assert(key@.subrange(0, key@.len() as int) =~= key@);
        assert(prefix@ =~= key@ + seq![61u8]);
    }
    let lines = split_lines(content);
    let ghost lm = lines@.map_values(|l: Vec<u8>| l@);
    let mut i: usize = 0;
    proof {
        assert(lm.subrange(0, lm.len() as int) =~= lm);
    }
    while i < lines.len()
        invariant
            0 <= i <= lines@.len(),
            lm == lines@.map_values(|l: Vec<u8>| l@),
            lm == all_lines(content@),
            prefix@ == key@ + seq![61u8],
            env_find(lm, prefix@) == env_find(lm.subrange(i as int, lm.len() as int), prefix@),
        decreases lines@.len() - i,
    {
        let ghost rest = lm.subrange(i as int, lm.len() as int);
        proof {
            assert(rest[0] == lm[i as int]);
            assert(rest.drop_first() =~= lm.subrange(i as int + 1, lm.len() as int));
        }
        if starts_with(&lines[i], &prefix) {
            let field = second_field_exec(&lines[i]);
            let trimmed = trim(&field);
            let cleaned = trim_quotes(&trimmed);
            return Some(cleaned);
        }
        i += 1;
    }
    proof {
        assert(lm.subrange(lm.len() as int, lm.len() as int) =~= Seq::<Seq<u8>>::empty());
    }
    None
}

/// A looked-up value or its built-in default.
pub open spec fn env_or_default(content: Seq<u8>, key: Seq<u8>, default: Seq<u8>) -> Seq<u8> {
    match env_lookup_spec(content, key) {
        Some(v) => v,
        None => default,
    }
}

/// The Anthropic-native endpoint URL the store configures.
pub fn get_anthropic_api_url(content: &Vec<u8>) -> (r: Vec<u8>)
    ensures
        r@ == env_or_default(
            content@,
            "ANTHROPIC_API_URL".spec_bytes(),
            "https://api.gptsapi.net/v1/messages".spec_bytes(),
        ),
{
    let key = lit("ANTHROPIC_API_URL");
    match env_lookup(content, &key) {
        Some(v) => v,
        None => lit("https://api.gptsapi.net/v1/messages"),
    }
}

/// The OpenAI-style endpoint URL for the answer model.
pub fn get_claude_openai_type_api_url(content: &Vec<u8>) -> (r: Vec<u8>)
    ensures
        r@ == env_or_default(
            content@,
            "CLAUDE_OPENAI_TYPE_API_URL".spec_bytes(),
            "https://api.gptsapi.net/v1/chat/completions".spec_bytes(),
        ),
{
    let key = lit("CLAUDE_OPENAI_TYPE_API_URL");
    match env_lookup(content, &key) {
        Some(v) => v,
        None => lit("https://api.gptsapi.net/v1/chat/completions"),
    }
}

/// The OpenAI-style endpoint URL for the reasoning model.
pub fn get_deepseek_openai_type_api_url(content: &Vec<u8>) -> (r: Vec<u8>)
    ensures
        r@ == env_or_default(
            content@,
            "DEEPSEEK_OPENAI_TYPE_API_URL".spec_bytes(),
            "https://ark.cn-beijing.volces.com/api/v3/chat/completions".spec_bytes(),
        ),
{
    let key = lit("DEEPSEEK_OPENAI_TYPE_API_URL");
    match env_lookup(content, &key) {
        Some(v) => v,
        None => lit("https://ark.cn-beijing.volces.com/api/v3/chat/completions"),
    }
}

/// The answer model used when the caller names none.
pub fn get_claude_default_model(content: &Vec<u8>) -> (r: Vec<u8>)
    ensures
        r@ == env_or_default(
            content@,
            "CLAUDE_DEFAULT_MODEL".spec_bytes(),
            "wild-3-7-sonnet-20250219".spec_bytes(),
        ),
{
    let key = lit("CLAUDE_DEFAULT_MODEL");
    match env_lookup(content, &key) {
        Some(v) => v,
        None => lit("wild-3-7-sonnet-20250219"),
    }
}

/// The reasoning model name reported in outbound chunks.
pub fn get_deepseek_default_model(content: &Vec<u8>) -> (r: Vec<u8>)
    ensures
        r@ == env_or_default(
            content@,
            "DEEPSEEK_DEFAULT_MODEL".spec_bytes(),
            "deepseek-reasoner".spec_bytes(),
        ),
{
    let key = lit("DEEPSEEK_DEFAULT_MODEL");
    match env_lookup(content, &key) {
        Some(v) => v,
        None => lit("deepseek-reasoner"),
    }
}

/// The gateway mode the store selects; `normal` is the default.
pub open spec fn mode_model(content: Seq<u8>) -> Mode {
    if env_lookup_spec(content, "MODE".spec_bytes()) == Some("full".spec_bytes()) {
        Mode::Full
    } else {
        Mode::Normal
    }
}

pub fn get_mode(content: &Vec<u8>) -> (r: Mode)
    ensures
        r == mode_model(content@),
{
    let key = lit("MODE");
    match env_lookup(content, &key) {
        Some(v) => {
            let full = lit("full");
            if bytes_eq(&v, &full) {
                Mode::Full
            } else {
                Mode::Normal
            }
        },
        None => Mode::Normal,
    }
}

/// Whether the answer model is called over the OpenAI dialect: yes when
/// an OpenAI-style URL is configured and non-blank, no when only the
/// Anthropic-native URL is, yes when neither is.
pub open spec fn use_openai_format_model(content: Seq<u8>) -> bool {
    match env_lookup_spec(content, "CLAUDE_OPENAI_TYPE_API_URL".spec_bytes()) {
        Some(o) => if trim_spec(o).len() > 0 {
            true
        } else {
            anthropic_url_blank(content)
        },
        None => anthropic_url_blank(content),
    }
}

pub open spec fn anthropic_url_blank(content: Seq<u8>) -> bool {
    match env_lookup_spec(content, "ANTHROPIC_API_URL".spec_bytes()) {
        Some(a) => trim_spec(a).len() == 0,
        None => true,
    }
}

pub fn should_use_openai_format(content: &Vec<u8>) -> (r: bool)
    ensures
        r == use_openai_format_model(content@),
{
    let claude_key = lit("CLAUDE_OPENAI_TYPE_API_URL");
    match env_lookup(content, &claude_key) {
        Some(o) => {
            let t = trim(&o);
            if t.len() > 0 {
                return true;
            }
            anthropic_blank(content)
        },
        None => anthropic_blank(content),
    }
}

fn anthropic_blank(content: &Vec<u8>) -> (r: bool)
    ensures
        r == anthropic_url_blank(content@),
{
    let key = lit("ANTHROPIC_API_URL");
    match env_lookup(content, &key) {
        Some(a) => {
            let t = trim(&a);
            t.len() == 0
        },
        None => true,
    }
}

/// What one line contributes to the variable table: nothing for blank
/// and comment lines, else the trimmed key and the trimmed remainder
/// after the first `=`.
pub open spec fn kv_of_line(l: Seq<u8>) -> Option<(Seq<u8>, Seq<u8>)> {
    let t = trim_spec(l);
    if t.len() == 0 || t[0] == 35 {
        None
    } else if first_idx(t, 61) >= t.len() {
        None
    } else {
        Some(
            (
                trim_spec(t.subrange(0, first_idx(t, 61) as int)),
                trim_spec(t.subrange(first_idx(t, 61) as int + 1, t.len() as int)),
            ),
        )
    }
}

fn kv_of_line_exec(l: &Vec<u8>) -> (r: Option<(Vec<u8>, Vec<u8>)>)
    ensures
        match r {
            Some(kv) => kv_of_line(l@) == Some((kv.0@, kv.1@)),
            None => kv_of_line(l@) is None,
        },
{
    let t = trim(l);
    if t.len() == 0 {
        return None;
    }
    if t[0] == 35 {
        return None;
    }
    proof {
        lemma_first_idx(t@, 61);
    }
    match find_byte(&t, 61) {
        Some(p) => {
            let key_part = subvec(&t, 0, p);
            let val_part = subvec(&t, p + 1, t.len());
            Some((trim(&key_part), trim(&val_part)))
        },
        None => None,
    }
}

/// The last value a key takes across the lines, as a scan that lets a
/// later line win.
pub open spec fn last_env_value(lines: Seq<Seq<u8>>, key: Seq<u8>) -> Option<Seq<u8>>
    decreases lines.len(),
{
    if lines.len() == 0 {
        None
    } else {
        match kv_of_line(lines.last()) {
            Some(kv) => if kv.0 == key {
                Some(kv.1)
            } else {
                last_env_value(lines.drop_last(), key)
            },
            None => last_env_value(lines.drop_last(), key),
        }
    }
}

/// Both API credentials out of the store text, when both are set.
pub open spec fn env_tokens_model(content: Seq<u8>) -> Option<(Seq<u8>, Seq<u8>)> {
    match (
        last_env_value(all_lines(content), "DEEPSEEK_API_KEY".spec_bytes()),
        last_env_value(all_lines(content), "ANTHROPIC_API_KEY".spec_bytes()),
    ) {
        (Some(d), Some(a)) => Some((d, a)),
        _ => None,
    }
}

/// Reads the two credentials from store text; None unless both exist.
pub fn get_env_api_tokens(content: &Vec<u8>) -> (r: Option<(Vec<u8>, Vec<u8>)>)
    ensures
        match r {
            Some(t) => env_tokens_model(content@) == Some((t.0@, t.1@)),
            None => env_tokens_model(content@) is None,
        },
{
    let lines = split_lines(content);
    let ghost lm = lines@.map_values(|l: Vec<u8>| l@);
    let deepseek_key = lit("DEEPSEEK_API_KEY");
    let anthropic_key = lit("ANTHROPIC_API_KEY");
    let mut deepseek: Option<Vec<u8>> = None;
    let mut anthropic: Option<Vec<u8>> = None;
    let mut i: usize = 0;
    proof {
        assert(lm.subrange(0, 0) =~= Seq::<Seq<u8>>::empty());
    }
    while i < lines.len()
        invariant
            0 <= i <= lines@.len(),
            lm == lines@.map_values(|l: Vec<u8>| l@),
            deepseek_key@ == "DEEPSEEK_API_KEY".spec_bytes(),
            anthropic_key@ == "ANTHROPIC_API_KEY".spec_bytes(),
            match deepseek {
                Some(ref v) => last_env_value(lm.subrange(0, i as int), deepseek_key@) == Some(v@),
                None => last_env_value(lm.subrange(0, i as int), deepseek_key@) is None,
            },
            match anthropic {
                Some(ref v) => last_env_value(lm.subrange(0, i as int), anthropic_key@) == Some(
                    v@,
                ),
                None => last_env_value(lm.subrange(0, i as int), anthropic_key@) is None,
            },
        decreases lines@.len() - i,
    {
        let ghost pre = lm.subrange(0, i as int);
        proof {
            let post = lm.subrange(0, i as int + 1);
            assert(post.drop_last() =~= pre);
            assert(post.last() == lm[i as int]);
        }
        match kv_of_line_exec(&lines[i]) {
            Some(kv) => {
                if bytes_eq(&kv.0, &deepseek_key) {
                    deepseek = Some(subvec(&kv.1, 0, kv.1.len()));
                    proof {
                        assert(kv.1@.subrange(0, kv.1@.len() as int) =~= kv.1@);
                    }
                }
                if bytes_eq(&kv.0, &anthropic_key) {
                    anthropic = Some(kv.1);
                }
            },
            None => {},
        }
        i += 1;
    }
    proof {
        assert(lm.subrange(0, lm.len() as int) =~= lm);
        assert(lm == all_lines(content@));
    }
    match (deepseek, anthropic) {
        (Some(d), Some(a)) => Some((d, a)),
        _ => None,
    }
}

/// Every key/value pair the store text declares, in line order.
pub open spec fn env_pairs_model(lines: Seq<Seq<u8>>) -> Seq<(Seq<u8>, Seq<u8>)>
    decreases lines.len(),
{
    if lines.len() == 0 {
        Seq::empty()
    } else {
        env_pairs_model(lines.drop_last()) + (match kv_of_line(lines.last()) {
            Some(kv) => seq![kv],
            None => Seq::<(Seq<u8>, Seq<u8>)>::empty(),
        })
    }
}

/// Parses all variables out of store text, in order; a reader who makes
/// a table of them lets a later line win.
pub fn get_env_variables(content: &Vec<u8>) -> (r: Vec<(Vec<u8>, Vec<u8>)>)
    ensures
        crate::upstream::pairs_model(r@) == env_pairs_model(all_lines(content@)),
{
    let lines = split_lines(content);
    let ghost lm = lines@.map_values(|l: Vec<u8>| l@);
    let mut r: Vec<(Vec<u8>, Vec<u8>)> = Vec::new();
    let mut i: usize = 0;
    proof {
        assert(lm.subrange(0, 0) =~= Seq::<Seq<u8>>::empty());
        assert(crate::upstream::pairs_model(r@) =~= env_pairs_model(lm.subrange(0, 0)));
    }
    while i < lines.len()
        invariant
            0 <= i <= lines@.len(),
            lm == lines@.map_values(|l: Vec<u8>| l@),
            crate::upstream::pairs_model(r@) == env_pairs_model(lm.subrange(0, i as int)),
        decreases lines@.len() - i,
    {
        let ghost pre = lm.subrange(0, i as int);
        proof {
            let post = lm.subrange(0, i as int + 1);
            assert(post.drop_last() =~= pre);
            assert(post.last() == lm[i as int]);
        }
        match kv_of_line_exec(&lines[i]) {
            Some(kv) => {
                let ghost r_pre = crate::upstream::pairs_model(r@);
                r.push(kv);
                proof {
                    assert(crate::upstream::pairs_model(r@) =~= r_pre.push(
                        (r@.last().0@, r@.last().1@),
                    ));
                    assert(crate::upstream::pairs_model(r@) =~= env_pairs_model(
                        lm.subrange(0, i as int + 1),
                    ));
                }
            },
            None => {
                proof {
                    assert(env_pairs_model(lm.subrange(0, i as int + 1)) =~= env_pairs_model(pre));
                }
            },
        }
        i += 1;
    }
    proof {
        assert(lm.subrange(0, lm.len() as int) =~= lm);
    }
    r
}

/// One variable update applied to store text: the first line declaring
/// the key is rewritten (everywhere that exact line text occurs), a new
/// key is appended on a line of its own.
pub open spec fn apply_update_model(c: Seq<u8>, k: Seq<u8>, v: Seq<u8>) -> Seq<u8> {
    let pat = k + seq![61u8];
    let new_line = k + seq![61u8] + v;
    if contains_seq(c, pat) {
        let p = first_match_idx(c, pat);
        let tail = c.subrange(p as int, c.len() as int);
        let e = p + first_idx(tail, 10);
        let old_line = c.subrange(p as int, e as int);
        if old_line.len() == 0 {
            c
        } else {
            replace_all_spec(c, old_line, new_line)
        }
    } else {
        (if c.len() > 0 && c.last() != 10 {
            c + seq![10u8]
        } else {
            c
        }) + new_line + seq![10u8]
    }
}

/// All updates applied in order.
pub open spec fn apply_updates_model(c: Seq<u8>, vars: Seq<(Seq<u8>, Seq<u8>)>) -> Seq<u8>
    decreases vars.len(),
{
    if vars.len() == 0 {
        c
    } else {
        apply_updates_model(apply_update_model(c, vars[0].0, vars[0].1), vars.drop_first())
    }
}

fn apply_update(c: Vec<u8>, k: &Vec<u8>, v: &Vec<u8>) -> (r: Vec<u8>)
    ensures
        r@ == apply_update_model(c@, k@, v@),
{
    let mut pat = subvec(k, 0, k.len());
    pat.push(61);
    let mut new_line = subvec(k, 0, k.len());
    new_line.push(61);
    push_all(&mut new_line, v);
    proof {
        assert(k@.subrange(0, k@.len() as int) =~= k@);
        assert(pat@ =~= k@ + seq![61u8]);
        assert(new_line@ =~= k@ + seq![61u8] + v@);
    }
    match find_subseq(&c, &pat) {
        Some(p) => {
            proof {
                lemma_first_match_idx(c@, pat@);
                let f = first_match_idx(c@, pat@);
                if (p as int) < f {
                    assert(!is_match_at(c@, pat@, p as int));
                }
                if f < p as int {
                    assert(!is_match_at(c@, pat@, f as int));
                }
                assert(p as int == f);
            }
            let tail = subvec(&c, p, c.len());
            proof {
                lemma_first_idx(tail@, 10);
            }
            let off = match find_byte(&tail, 10) {
                Some(o) => o,
                None => tail.len(),
            };
            let old_line = subvec(&c, p, p + off);
            proof {
                assert(old_line@ =~= c@.subrange(
                    p as int,
                    p as int + first_idx(c@.subrange(p as int, c@.len() as int), 10) as int,
                ));
            }
            if old_line.len() == 0 {
                c
            } else {
                replace_all(&c, &old_line, &new_line)
            }
        },
        None => {
            let mut out = c;
            if out.len() > 0 {
                let last = out[out.len() - 1];
                if last != 10 {
                    out.push(10);
                }
            }
            push_all(&mut out, &new_line);
            out.push(10);
            proof {
                assert(out@ =~= apply_update_model(c@, k@, v@));
            }
            out
        },
    }
}

/// Rewrites store text with every given variable set to its new value.
pub fn update_env_variables(content: &Vec<u8>, vars: &Vec<(Vec<u8>, Vec<u8>)>) -> (r: Vec<u8>)
    ensures
        r@ == apply_updates_model(content@, crate::upstream::pairs_model(vars@)),
{
    let ghost all = crate::upstream::pairs_model(vars@);
    let mut out = subvec(content, 0, content.len());
    proof {
        assert(content@.subrange(0, content@.len() as int) =~= content@);
    }
    let mut i: usize = 0;
    proof {
        assert(all.subrange(0, all.len() as int) =~= all);
    }
    while i < vars.len()
        invariant
            0 <= i <= vars@.len(),
            all == crate::upstream::pairs_model(vars@),
            apply_updates_model(content@, all) == apply_updates_model(
                out@,
                all.subrange(i as int, all.len() as int),
            ),
        decreases vars@.len() - i,
    {
        let ghost rest = all.subrange(i as int, all.len() as int);
        proof {
            assert(rest[0] == all[i as int]);
            assert(rest.drop_first() =~= all.subrange(i as int + 1, all.len() as int));
        }
        out = apply_update(out, &vars[i].0, &vars[i].1);
        i += 1;
    }
    proof {
        assert(all.subrange(vars@.len() as int, all.len() as int)
            =~= Seq::<(Seq<u8>, Seq<u8>)>::empty());
    }
    out
}

} // verus!
