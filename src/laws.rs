use vstd::prelude::*;
use crate::config::ParserConfig;
use crate::event::EventModel;
use crate::normalizer::{normalized, role, run, step, text_out, Role};
use crate::text::{is_trimmed, lemma_trim_is_trimmed, lemma_trimmed_fixed, trim_start};

verus! {

/// An event that the normalized stream may hold under `cfg`: a `Characters`
/// event with some text, trimmed where trimming is on, or an event that the
/// configuration passes on as it is.
pub open spec fn emittable(cfg: ParserConfig, e: EventModel) -> bool {
    match e {
        EventModel::Characters(t) => t.len() > 0 && (cfg.trim_whitespace ==> is_trimmed(t)),
        _ => role(cfg, e) is Kept,
    }
}

/// No two neighbouring events of `s` are both `Characters`.
pub open spec fn no_adjacent_characters(s: Seq<EventModel>) -> bool {
    forall|i: int|
        0 <= i < s.len() - 1 ==> !(#[trigger] s[i] is Characters && s[i + 1] is Characters)
}

/// The event `e` with a `Whitespace` event turned into `Characters` of the
/// same text.
pub open spec fn whitespace_as_characters(e: EventModel) -> EventModel {
    match e {
        EventModel::Whitespace(t) => EventModel::Characters(t),
        _ => e,
    }
}

/// The text emitted for `t` is at most one `Characters` event, with some
/// text, trimmed where trimming is on.
proof fn lemma_text_out(cfg: ParserConfig, t: Seq<char>)
    ensures
        text_out(cfg, t).len() <= 1,
        forall|i: int|
            0 <= i < text_out(cfg, t).len() ==> emittable(cfg, #[trigger] text_out(cfg, t)[i])
                && text_out(cfg, t)[i] is Characters,
{
    if cfg.trim_whitespace {
        lemma_trim_is_trimmed(t);
    }
}

/// Text that needs no trimming is emitted as it is.
proof fn lemma_text_out_fixed(cfg: ParserConfig, t: Seq<char>)
    requires
        cfg.trim_whitespace ==> is_trimmed(t),
    ensures
        text_out(cfg, t) == (if t.len() == 0 {
            Seq::<EventModel>::empty()
        } else {
            seq![EventModel::Characters(t)]
        }),
{
    if cfg.trim_whitespace {
        lemma_trimmed_fixed(t);
    }
}

/// What one step emits is emittable, and ends with an event that is not
/// `Characters` where merging is on.
proof fn lemma_step(cfg: ParserConfig, p: Seq<char>, e: EventModel)
    ensures
        forall|i: int|
            0 <= i < step(cfg, p, e).1.len() ==> emittable(cfg, #[trigger] step(cfg, p, e).1[i]),
        cfg.merge_sequential_characters ==> no_adjacent_characters(step(cfg, p, e).1),
        cfg.merge_sequential_characters ==> step(cfg, p, e).1.len() == 0 || !(step(
            cfg,
            p,
            e,
        ).1.last() is Characters),
{
    lemma_text_out(cfg, p);
    match role(cfg, e) {
        Role::Text(t) => {
            lemma_text_out(cfg, t);
        },
        Role::Kept => {
            let out = step(cfg, p, e).1;
            let f = text_out(cfg, p);
            assert(out == f + seq![e]);
            assert(!(e is Characters));
            assert forall|i: int| 0 <= i < out.len() implies emittable(cfg, #[trigger] out[i]) by {
                if i < f.len() {
                    assert(out[i] == f[i]);
                } else {
                    assert(out[i] == e);
                }
            }
        },
        Role::Dropped => {},
    }
}

/// Every event of the output of `run` is emittable.
proof fn lemma_run_emittable(cfg: ParserConfig, p: Seq<char>, s: Seq<EventModel>)
    ensures
        forall|i: int|
            0 <= i < run(cfg, p, s).len() ==> emittable(cfg, #[trigger] run(cfg, p, s)[i]),
    decreases s.len(),
{
    if s.len() == 0 {
        lemma_text_out(cfg, p);
    } else {
        let (q, out) = step(cfg, p, s[0]);
        let rest = run(cfg, q, s.drop_first());
        lemma_step(cfg, p, s[0]);
        lemma_run_emittable(cfg, q, s.drop_first());
        let all = run(cfg, p, s);
        assert(all == out + rest);
        assert forall|i: int| 0 <= i < all.len() implies emittable(cfg, #[trigger] all[i]) by {
            if i < out.len() {
                assert(all[i] == out[i]);
            } else {
                assert(all[i] == rest[i - out.len()]);
            }
        }
    }
}

/// Joining two sequences without neighbouring `Characters` keeps that
/// property where the first does not end with `Characters`.
proof fn lemma_no_adjacent_concat(a: Seq<EventModel>, b: Seq<EventModel>)
    requires
        no_adjacent_characters(a),
        no_adjacent_characters(b),
        a.len() == 0 || !(a.last() is Characters),
    ensures
        no_adjacent_characters(a + b),
{
    let c = a + b;
    assert forall|i: int| 0 <= i < c.len() - 1 implies !(#[trigger] c[i] is Characters && c[i
        + 1] is Characters) by {
        if i + 1 < a.len() {
            assert(c[i] == a[i] && c[i + 1] == a[i + 1]);
        } else if i + 1 == a.len() {
            assert(c[i] == a.last());
        } else {
            assert(c[i] == b[i - a.len()] && c[i + 1] == b[i + 1 - a.len()]);
        }
    }
}

/// Where merging is on, the output of `run` has no neighbouring
/// `Characters` events.
proof fn lemma_run_no_adjacent(cfg: ParserConfig, p: Seq<char>, s: Seq<EventModel>)
    requires
        cfg.merge_sequential_characters,
    ensures
        no_adjacent_characters(run(cfg, p, s)),
    decreases s.len(),
{
    if s.len() == 0 {
        lemma_text_out(cfg, p);
    } else {
        let (q, out) = step(cfg, p, s[0]);
        lemma_step(cfg, p, s[0]);
        lemma_run_no_adjacent(cfg, q, s.drop_first());
        lemma_no_adjacent_concat(out, run(cfg, q, s.drop_first()));
    }
}

/// Ignoring comments leaves no `Comment` event in the normalized stream.
pub proof fn law_no_comments(cfg: ParserConfig, s: Seq<EventModel>)
    requires
        cfg.ignore_comments,
    ensures
        forall|i: int|
            0 <= i < normalized(cfg, s).len() ==> !(#[trigger] normalized(cfg, s)[i] is Comment),
{
    lemma_run_emittable(cfg, Seq::empty(), s);
}

/// Converting whitespace leaves no `Whitespace` event in the normalized
/// stream.
pub proof fn law_no_whitespace(cfg: ParserConfig, s: Seq<EventModel>)
    requires
        cfg.whitespace_to_characters,
    ensures
        forall|i: int|
            0 <= i < normalized(cfg, s).len() ==> !(#[trigger] normalized(cfg, s)[i] is Whitespace),
{
    lemma_run_emittable(cfg, Seq::empty(), s);
}

/// Converting whitespace treats each `Whitespace` event exactly as a
/// `Characters` event with the same text: the normalized stream is the one of
/// the input in which every `Whitespace` was already `Characters`.
pub proof fn law_whitespace_as_characters(cfg: ParserConfig, s: Seq<EventModel>)
    requires
        cfg.whitespace_to_characters,
    ensures
        normalized(cfg, s) == normalized(
            cfg,
            s.map_values(|e: EventModel| whitespace_as_characters(e)),
        ),
{
    lemma_run_whitespace(cfg, Seq::empty(), s);
}

proof fn lemma_run_whitespace(cfg: ParserConfig, p: Seq<char>, s: Seq<EventModel>)
    requires
        cfg.whitespace_to_characters,
    ensures
        run(cfg, p, s) == run(cfg, p, s.map_values(|e: EventModel| whitespace_as_characters(e))),
    decreases s.len(),
{
    let w = s.map_values(|e: EventModel| whitespace_as_characters(e));
    if s.len() > 0 {
        assert(w[0] == whitespace_as_characters(s[0]));
        assert(step(cfg, p, s[0]) == step(cfg, p, w[0]));
        let q = step(cfg, p, s[0]).0;
        lemma_run_whitespace(cfg, q, s.drop_first());
        assert(w.drop_first() =~= s.drop_first().map_values(
            |e: EventModel| whitespace_as_characters(e),
        ));
    }
}

/// Converting CDATA leaves no `CData` event in the normalized stream.
pub proof fn law_no_cdata(cfg: ParserConfig, s: Seq<EventModel>)
    requires
        cfg.cdata_to_characters,
    ensures
        forall|i: int|
            0 <= i < normalized(cfg, s).len() ==> !(#[trigger] normalized(cfg, s)[i] is CData),
{
    lemma_run_emittable(cfg, Seq::empty(), s);
}

/// No `Characters` event of the normalized stream has empty text.
pub proof fn law_no_empty_characters(cfg: ParserConfig, s: Seq<EventModel>)
    ensures
        forall|i: int|
            0 <= i < normalized(cfg, s).len() && #[trigger] normalized(cfg, s)[i] is Characters
                ==> normalized(cfg, s)[i]->Characters_0.len() > 0,
{
    lemma_run_emittable(cfg, Seq::empty(), s);
}

/// Where merging is on, no two neighbouring events of the normalized stream
/// are both `Characters`.
pub proof fn law_merged(cfg: ParserConfig, s: Seq<EventModel>)
    requires
        cfg.merge_sequential_characters,
    ensures
        no_adjacent_characters(normalized(cfg, s)),
{
    lemma_run_no_adjacent(cfg, Seq::empty(), s);
}

/// A stream of emittable events (without neighbouring `Characters` where
/// merging is on) is left as it is, after the pending text `p`.
proof fn lemma_run_fixed(cfg: ParserConfig, p: Seq<char>, s: Seq<EventModel>)
    requires
        forall|i: int| 0 <= i < s.len() ==> emittable(cfg, #[trigger] s[i]),
        cfg.merge_sequential_characters ==> no_adjacent_characters(s),
        cfg.trim_whitespace ==> is_trimmed(p),
        p.len() > 0 ==> cfg.merge_sequential_characters,
        p.len() > 0 && s.len() > 0 ==> !(s[0] is Characters),
    ensures
        run(cfg, p, s) == text_out(cfg, p) + s,
    decreases s.len(),
{
    lemma_text_out_fixed(cfg, p);
    let e0 = Seq::<char>::empty();
    assert(trim_start(e0) == e0);
    if s.len() == 0 {
        assert(text_out(cfg, p) + s =~= text_out(cfg, p));
    } else {
        let e = s[0];
        let rest = s.drop_first();
        assert(emittable(cfg, e));
        assert forall|i: int| 0 <= i < rest.len() implies emittable(cfg, #[trigger] rest[i]) by {
            assert(rest[i] == s[i + 1]);
        }
        if cfg.merge_sequential_characters {
            assert forall|i: int| 0 <= i < rest.len() - 1 implies !(#[trigger] rest[i] is Characters
                && rest[i + 1] is Characters) by {
                assert(rest[i] == s[i + 1] && rest[i + 1] == s[i + 2]);
            }
        }
        match e {
            EventModel::Characters(t) => {
                lemma_text_out_fixed(cfg, t);
                if cfg.merge_sequential_characters {
                    assert(p + t =~= t);
                    if rest.len() > 0 {
                        assert(s[0] is Characters);
                        assert(rest[0] == s[1]);
                    }
                    lemma_run_fixed(cfg, t, rest);
                    assert(text_out(cfg, p) + s =~= text_out(cfg, t) + rest);
                } else {
                    lemma_run_fixed(cfg, p, rest);
                    assert(text_out(cfg, p) + s =~= text_out(cfg, t) + rest);
                }
            },
            _ => {
                assert(role(cfg, e) is Kept);
                lemma_text_out_fixed(cfg, e0);
                lemma_run_fixed(cfg, e0, rest);
                assert(text_out(cfg, p) + s =~= (text_out(cfg, p) + seq![e]) + (text_out(cfg, e0)
                    + rest));
            },
        }
    }
}

/// Normalizing a normalized stream again under the same configuration
/// changes nothing.
pub proof fn law_idempotent(cfg: ParserConfig, s: Seq<EventModel>)
    ensures
        normalized(cfg, normalized(cfg, s)) == normalized(cfg, s),
{
    let n = normalized(cfg, s);
    let e0 = Seq::<char>::empty();
    lemma_run_emittable(cfg, e0, s);
    if cfg.merge_sequential_characters {
        lemma_run_no_adjacent(cfg, e0, s);
    }
    assert(trim_start(e0) == e0);
    lemma_run_fixed(cfg, e0, n);
    lemma_text_out_fixed(cfg, e0);
    assert(text_out(cfg, e0) + n =~= n);
}

} // verus!
