use vstd::prelude::*;
use vstd::string::StringExecFns;
use crate::codec::{
    decoder_input, decoder_input_spec, decrypt_spec, decrypt_with_outcome, encrypt_number,
    encrypt_spec, outcome_view, result_view, text_view,
};
use crate::error::{AppError, AppResult};
use crate::profile::{ActiveConfig, CryptoConfig};
use crate::text::{chars_of, push_char, string_of, trim, trim_chars};

verus! {

pub open spec fn is_delim(c: char) -> bool {
    c == '\n' || c == ','
}

/// `s` cut at every newline and comma (always at least one piece).
pub open spec fn pieces(s: Seq<char>) -> Seq<Seq<char>>
    decreases s.len(),
{
    if s.len() == 0 {
        seq![Seq::<char>::empty()]
    } else {
        let ps = pieces(s.drop_last());
        if is_delim(s.last()) {
            ps.push(Seq::<char>::empty())
        } else if ps.len() == 0 {
            seq![seq![s.last()]]
        } else {
            ps.update(ps.len() - 1, ps.last().push(s.last()))
        }
    }
}

/// The pieces trimmed, with the empty ones dropped.
pub open spec fn keep_items(ps: Seq<Seq<char>>) -> Seq<Seq<char>>
    decreases ps.len(),
{
    if ps.len() == 0 {
        Seq::<Seq<char>>::empty()
    } else {
        let k = keep_items(ps.drop_last());
        let t = trim(ps.last());
        if t.len() > 0 {
            k.push(t)
        } else {
            k
        }
    }
}

/// The items of a batch: split at newlines and commas, trimmed, empty ones dropped.
pub open spec fn batch_items(s: Seq<char>) -> Seq<Seq<char>> {
    keep_items(pieces(s))
}

pub open spec fn count_char(s: Seq<char>, c: char) -> nat
    decreases s.len(),
{
    if s.len() == 0 {
        0
    } else {
        count_char(s.drop_last(), c) + if s.last() == c { 1nat } else { 0nat }
    }
}

/// Newline when the input holds more newlines than commas, else comma.
pub open spec fn batch_delimiter(s: Seq<char>) -> char {
    if count_char(s, '\n') > count_char(s, ',') {
        '\n'
    } else {
        ','
    }
}

/// The items joined with `d` between each two.
pub open spec fn join(items: Seq<Seq<char>>, d: char) -> Seq<char>
    decreases items.len(),
{
    if items.len() == 0 {
        Seq::<char>::empty()
    } else if items.len() == 1 {
        items[0]
    } else {
        join(items.drop_last(), d).push(d) + items.last()
    }
}

pub open spec fn views(v: Seq<String>) -> Seq<Seq<char>> {
    v.map_values(|x: String| x@)
}

/// The items of a batch, in order.
pub fn split_items(s: &str) -> (r: Vec<String>)
    ensures
        views(r@) == batch_items(s@),
{
    let cs = chars_of(s);
    let mut out: Vec<String> = Vec::new();
    let mut cur: Vec<char> = Vec::new();
    let mut i: usize = 0;
    proof { assert(cs@.take(0) =~= Seq::<char>::empty()); }
    while i < cs.len()
        invariant
            i <= cs@.len(),
            cs@ == s@,
            pieces(cs@.take(i as int)).len() >= 1,
            cur@ == pieces(cs@.take(i as int)).last(),
            views(out@) == keep_items(pieces(cs@.take(i as int)).drop_last()),
        decreases cs@.len() - i,
    {
        let c = cs[i];
        let ghost ps = pieces(cs@.take(i as int));
        proof {
            assert(cs@.take(i + 1).drop_last() =~= cs@.take(i as int));
            assert(cs@.take(i + 1).last() == c);
        }
        if c == '\n' || c == ',' {
            let t = trim_chars(&cur);
            if t.len() > 0 {
                out.push(string_of(&t));
                proof { assert(views(out@) =~= keep_items(ps.drop_last()).push(t@)); }
            }
            proof {
                assert(ps.push(Seq::<char>::empty()).drop_last() =~= ps);
                assert(ps =~= ps.drop_last().push(ps.last()));
            }
            cur = Vec::new();
        } else {
            cur.push(c);
            proof {
                assert(ps.update(ps.len() - 1, ps.last().push(c)).drop_last() =~= ps.drop_last());
            }
        }
        i = i + 1;
    }
    proof {
        let ps = pieces(cs@.take(i as int));
        assert(cs@.take(i as int) =~= s@);
        assert(ps =~= ps.drop_last().push(ps.last()));
    }
    let t = trim_chars(&cur);
    if t.len() > 0 {
        out.push(string_of(&t));
        proof { assert(views(out@) =~= views(out@.drop_last()).push(t@)); }
    }
    out
}

/// Counts the occurrences of `c` in `s`.
pub fn count_of(s: &[char], c: char) -> (r: usize)
    ensures
        r == count_char(s@, c),
{
    let mut k: usize = 0;
    let mut i: usize = 0;
    while i < s.len()
        invariant
            i <= s@.len(),
            k == count_char(s@.take(i as int), c),
            k <= i,
        decreases s@.len() - i,
    {
        proof { assert(s@.take(i + 1).drop_last() =~= s@.take(i as int)); }
        if s[i] == c {
            k = k + 1;
        }
        i = i + 1;
    }
    proof { assert(s@.take(i as int) =~= s@); }
    k
}

/// The delimiter that a batch's output is joined with.
pub fn delimiter_of(s: &str) -> (r: char)
    ensures
        r == batch_delimiter(s@),
{
    let cs = chars_of(s);
    if count_of(&cs, '\n') > count_of(&cs, ',') {
        '\n'
    } else {
        ','
    }
}

/// The items joined with `d`.
pub fn join_items(items: &Vec<String>, d: char) -> (r: String)
    ensures
        r@ == join(views(items@), d),
{
    let mut r = String::new();
    let mut i: usize = 0;
    while i < items.len()
        invariant
            i <= items@.len(),
            r@ == join(views(items@.take(i as int)), d),
        decreases items@.len() - i,
    {
        proof {
            assert(views(items@.take(i + 1)).drop_last() =~= views(items@.take(i as int)));
            assert(views(items@.take(i + 1)).last() == items@[i as int]@);
            if i == 0 {
                assert(r@ =~= Seq::<char>::empty());
            }
        }
        if i > 0 {
            push_char(&mut r, d);
        }
        r.append(items[i].as_str());
        proof {
            if i == 0 {
                assert(r@ =~= views(items@.take(1))[0]);
            }
        }
        i = i + 1;
    }
    proof { assert(items@.take(i as int) =~= items@); }
    r
}

/// Encoding each item in turn; the first failure is the result.
pub open spec fn map_encrypt(cfg: ActiveConfig, items: Seq<Seq<char>>) -> Result<Seq<Seq<char>>, AppError>
    decreases items.len(),
{
    if items.len() == 0 {
        Ok(Seq::<Seq<char>>::empty())
    } else {
        match map_encrypt(cfg, items.drop_last()) {
            Err(e) => Err(e),
            Ok(rs) => match encrypt_spec(cfg, items.last()) {
                Err(e) => Err(e),
                Ok(t) => Ok(rs.push(t)),
            },
        }
    }
}

/// What encoding a whole batch yields.
pub open spec fn batch_encrypt_spec(cfg: ActiveConfig, s: Seq<char>) -> Result<Seq<char>, AppError> {
    match map_encrypt(cfg, batch_items(s)) {
        Ok(rs) => Ok(join(rs, batch_delimiter(s))),
        Err(e) => Err(e),
    }
}

/// Encodes every item of a batch and joins the tokens with the batch's
/// delimiter; fails with the first item's error.
pub fn batch_encrypt(cfg: &ActiveConfig, input: &str) -> (r: AppResult<String>)
    ensures
        result_view(r) == batch_encrypt_spec(*cfg, input@),
{
    let items = split_items(input);
    let d = delimiter_of(input);
    let mut out: Vec<String> = Vec::new();
    let mut i: usize = 0;
    proof {
        assert(views(items@).take(0) =~= Seq::<Seq<char>>::empty());
        assert(views(out@) =~= Seq::<Seq<char>>::empty());
    }
    while i < items.len()
        invariant
            i <= items@.len(),
            views(items@) == batch_items(input@),
            map_encrypt(*cfg, views(items@).take(i as int)) == Ok::<Seq<Seq<char>>, AppError>(views(out@)),
        decreases items@.len() - i,
    {
        proof {
            assert(views(items@).take(i + 1).drop_last() =~= views(items@).take(i as int));
            assert(views(items@).take(i + 1).last() == items@[i as int]@);
        }
        match encrypt_number(cfg, items[i].as_str()) {
            Ok(t) => {
                let ghost prev = out@;
                out.push(t);
                proof { assert(views(out@) =~= views(prev).push(t@)); }
            },
            Err(e) => {
                proof { lemma_map_encrypt_err(*cfg, views(items@), i as int + 1); }
                return Err(e);
            },
        }
        i = i + 1;
    }
    proof { assert(views(items@).take(i as int) =~= views(items@)); }
    Ok(join_items(&out, d))
}

proof fn lemma_map_encrypt_err(cfg: ActiveConfig, items: Seq<Seq<char>>, k: int)
    requires
        0 < k <= items.len(),
        map_encrypt(cfg, items.take(k)) is Err,
    ensures
        map_encrypt(cfg, items) == map_encrypt(cfg, items.take(k)),
    decreases items.len() - k,
{
    if k < items.len() {
        assert(items.take(k + 1).drop_last() =~= items.take(k));
        lemma_map_encrypt_err(cfg, items, k + 1);
    } else {
        assert(items.take(k) =~= items);
    }
}

/// For each batch item, the text it hands to the hashid decoder, if any.
pub fn batch_decoder_inputs(p: CryptoConfig, input: &str) -> (r: Vec<Option<String>>)
    ensures
        r@.len() == batch_items(input@).len(),
        forall|i: int| 0 <= i < r@.len() ==> #[trigger] text_view(r@[i]) == decoder_input_spec(p, batch_items(input@)[i]),
{
    let items = split_items(input);
    let mut r: Vec<Option<String>> = Vec::new();
    let mut i: usize = 0;
    while i < items.len()
        invariant
            i <= items@.len(),
            views(items@) == batch_items(input@),
            r@.len() == i,
            forall|k: int| 0 <= k < i ==> #[trigger] text_view(r@[k]) == decoder_input_spec(p, views(items@)[k]),
        decreases items@.len() - i,
    {
        proof { assert(views(items@)[i as int] == items@[i as int]@); }
        r.push(decoder_input(p, items[i].as_str()));
        i = i + 1;
    }
    r
}

pub open spec fn outcome_views(v: Seq<Option<Vec<u64>>>) -> Seq<Option<Seq<u64>>> {
    v.map_values(|o: Option<Vec<u64>>| outcome_view(o))
}

/// Decoding each item in turn, item `k` with decoder outcome `outs[k]`; the
/// first failure is the result.
pub open spec fn map_decrypt(p: CryptoConfig, items: Seq<Seq<char>>, outs: Seq<Option<Seq<u64>>>) -> Result<Seq<Seq<char>>, AppError>
    decreases items.len(),
{
    if items.len() == 0 {
        Ok(Seq::<Seq<char>>::empty())
    } else {
        match map_decrypt(p, items.drop_last(), outs) {
            Err(e) => Err(e),
            Ok(rs) => match decrypt_spec(p, items.last(), outs[items.len() - 1]) {
                Err(e) => Err(e),
                Ok(t) => Ok(rs.push(t)),
            },
        }
    }
}

/// What decoding a whole batch yields, given the decoder outcome for each item.
pub open spec fn batch_decrypt_spec(p: CryptoConfig, s: Seq<char>, outs: Seq<Option<Seq<u64>>>) -> Result<Seq<char>, AppError> {
    match map_decrypt(p, batch_items(s), outs) {
        Ok(rs) => Ok(join(rs, batch_delimiter(s))),
        Err(e) => Err(e),
    }
}

proof fn lemma_map_decrypt_err(p: CryptoConfig, items: Seq<Seq<char>>, outs: Seq<Option<Seq<u64>>>, k: int)
    requires
        0 < k <= items.len(),
        map_decrypt(p, items.take(k), outs) is Err,
    ensures
        map_decrypt(p, items, outs) == map_decrypt(p, items.take(k), outs),
    decreases items.len() - k,
{
    if k < items.len() {
        assert(items.take(k + 1).drop_last() =~= items.take(k));
        lemma_map_decrypt_err(p, items, outs, k + 1);
    } else {
        assert(items.take(k) =~= items);
    }
}

/// Decodes every item of a batch under profile `p`, item `k` with the
/// decoder outcome `outcomes[k]` for the text `batch_decoder_inputs` named,
/// and joins the numerals with the batch's delimiter; fails with the first
/// item's error.
pub fn batch_decrypt(p: CryptoConfig, input: &str, outcomes: &Vec<Option<Vec<u64>>>) -> (r: AppResult<String>)
    requires
        outcomes@.len() == batch_items(input@).len(),
    ensures
        result_view(r) == batch_decrypt_spec(p, input@, outcome_views(outcomes@)),
{
    let items = split_items(input);
    let d = delimiter_of(input);
    let ghost outs = outcome_views(outcomes@);
    let mut out: Vec<String> = Vec::new();
    let mut i: usize = 0;
    proof {
        assert(views(items@).take(0) =~= Seq::<Seq<char>>::empty());
        assert(views(out@) =~= Seq::<Seq<char>>::empty());
    }
    while i < items.len()
        invariant
            i <= items@.len(),
            views(items@) == batch_items(input@),
            outcomes@.len() == items@.len(),
            outs == outcome_views(outcomes@),
            map_decrypt(p, views(items@).take(i as int), outs) == Ok::<Seq<Seq<char>>, AppError>(views(out@)),
        decreases items@.len() - i,
    {
        proof {
            assert(views(items@).take(i + 1).drop_last() =~= views(items@).take(i as int));
            assert(views(items@).take(i + 1).last() == items@[i as int]@);
            assert(outs[i as int] == outcome_view(outcomes@[i as int]));
        }
        match decrypt_with_outcome(p, items[i].as_str(), &outcomes[i]) {
            Ok(t) => {
                let ghost prev = out@;
                out.push(t);
                proof { assert(views(out@) =~= views(prev).push(t@)); }
            },
            Err(e) => {
                proof { lemma_map_decrypt_err(p, views(items@), outs, i as int + 1); }
                return Err(e);
            },
        }
        i = i + 1;
    }
    proof { assert(views(items@).take(i as int) =~= views(items@)); }
    Ok(join_items(&out, d))
}

} // verus!
