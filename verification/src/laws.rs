//! What holds of every source and every snapshot, proved from the definitions.

use crate::env::{
    binding_of, collected, dotted, group_separator, inferred_kind, normalized_key, origin_tag,
    prefix_pattern, RawEntryView, Settings,
};
use crate::text::{lowercase_of, replace_all};
use crate::value::{KindView, ValueView};
use vstd::prelude::*;

verus! {

/// Without a prefix every variable that is not left out for its empty value is
/// read; its key is its lowercased name with the separator rewritten, and its
/// value is the raw string unless type inference is on.
pub proof fn lemma_entry_without_prefix(cfg: Settings, entry: RawEntryView)
    requires
        cfg.prefix is None,
        !(cfg.ignore_empty && entry.value.len() == 0),
    ensures
        normalized_key(cfg, entry.name) == Some(dotted(cfg, lowercase_of(entry.name))),
        cfg.separator is None ==> normalized_key(cfg, entry.name) == Some(
            lowercase_of(entry.name),
        ),
        binding_of(cfg, entry) == Some(
            (
                dotted(cfg, lowercase_of(entry.name)),
                ValueView {
                    origin: Some(origin_tag()),
                    kind: inferred_kind(cfg, entry.value, entry.float_bits),
                },
            ),
        ),
        !cfg.try_parsing ==> inferred_kind(cfg, entry.value, entry.float_bits)
            == KindView::String(entry.value),
{
}

/// With a prefix and no separator of its own (none set, or the empty one), a
/// name whose lowercase form is the lowercased prefix, then `_`, then `rest`,
/// is read under the key `rest`.
pub proof fn lemma_prefixed_name_kept(cfg: Settings, name: Seq<char>, rest: Seq<char>)
    requires
        cfg.prefix is Some,
        cfg.separator is None || cfg.separator->0.len() == 0,
        lowercase_of(name) == lowercase_of(cfg.prefix->0) + "_"@ + rest,
    ensures
        normalized_key(cfg, name) == Some(rest),
{
    let pattern = lowercase_of(cfg.prefix->0) + "_"@;
    let lower = lowercase_of(name);
    assert(prefix_pattern(cfg) == Some(pattern));
    assert(pattern.is_prefix_of(lower)) by {
        assert(lower.subrange(0, pattern.len() as int) =~= pattern);
    }
    assert(lower.skip(pattern.len() as int) =~= rest);
    assert(dotted(cfg, rest) == rest);
}

/// Rewriting a separator of one character changes nothing but that character:
/// the key keeps its length, has `to` wherever the separator stood, and every
/// other character where it was.
pub proof fn lemma_single_char_rewrite(s: Seq<char>, sep: char, to: char)
    ensures
        replace_all(s, seq![sep], seq![to]).len() == s.len(),
        forall|i: int|
            0 <= i < s.len() ==> #[trigger] replace_all(s, seq![sep], seq![to])[i] == (if s[i]
                == sep {
                to
            } else {
                s[i]
            }),
    decreases s.len(),
{
    let pat = seq![sep];
    if s.len() >= 1 {
        let tail = s.skip(1);
        lemma_single_char_rewrite(tail, sep, to);
        let head = if s[0] == sep {
            seq![to]
        } else {
            seq![s[0]]
        };
        assert(pat.is_prefix_of(s) <==> s[0] == sep) by {
            if s[0] == sep {
                assert(s.subrange(0, 1) =~= pat);
            } else {
                assert(pat[0] == sep);
            }
        }
        assert(replace_all(s, pat, seq![to]) == head + replace_all(tail, pat, seq![to]));
        assert forall|i: int| 0 <= i < s.len() implies #[trigger] replace_all(
            s,
            pat,
            seq![to],
        )[i] == (if s[i] == sep {
            to
        } else {
            s[i]
        }) by {
            if i > 0 {
                assert(tail[i - 1] == s[i]);
                assert(replace_all(s, pat, seq![to])[i] == replace_all(tail, pat, seq![to])[i
                    - 1]);
            }
        }
    }
}

/// With a prefix, a name whose lowercase form does not begin with the
/// lowercased prefix and the group separator is left out, whatever its value.
pub proof fn lemma_foreign_name_left_out(cfg: Settings, entry: RawEntryView)
    requires
        cfg.prefix is Some,
        !(lowercase_of(cfg.prefix->0) + group_separator(cfg)).is_prefix_of(
            lowercase_of(entry.name),
        ),
    ensures
        normalized_key(cfg, entry.name) is None,
        binding_of(cfg, entry) is None,
{
}

/// A variable is read exactly when it passes both filters, the one on empty
/// values and the one on the prefix, in whichever order they are asked.
pub proof fn lemma_filters_independent(cfg: Settings, entry: RawEntryView)
    ensures
        binding_of(cfg, entry) is Some <==> (normalized_key(cfg, entry.name) is Some && !(
        cfg.ignore_empty && entry.value.len() == 0)),
{
}

/// Two snapshots that hold the same variables in the same order give the same
/// map: the map depends on nothing but the settings and the snapshot.
pub proof fn lemma_collect_repeatable(
    cfg: Settings,
    first: Seq<RawEntryView>,
    second: Seq<RawEntryView>,
)
    requires
        first.len() == second.len(),
        forall|i: int| 0 <= i < first.len() ==> first[i] == second[i],
    ensures
        collected(cfg, first) == collected(cfg, second),
{
    assert(first =~= second);
}

/// Every key of the map has its value from some variable of the snapshot that
/// is read under that key.
pub proof fn lemma_collected_origin(cfg: Settings, entries: Seq<RawEntryView>, key: Seq<char>)
    requires
        collected(cfg, entries).dom().contains(key),
    ensures
        exists|i: int|
            0 <= i < entries.len() && binding_of(cfg, #[trigger] entries[i]) == Some(
                (key, collected(cfg, entries)[key]),
            ),
    decreases entries.len(),
{
    if entries.len() > 0 {
        let front = entries.drop_last();
        let last = entries.last();
        let b = binding_of(cfg, last);
        if b is Some && normalized_key(cfg, last.name) == Some(key) {
            assert(binding_of(cfg, entries[entries.len() - 1]) == Some(
                (key, collected(cfg, entries)[key]),
            ));
        } else {
            assert(collected(cfg, front).dom().contains(key));
            assert(collected(cfg, front)[key] == collected(cfg, entries)[key]);
            lemma_collected_origin(cfg, front, key);
            let i = choose|i: int|
                0 <= i < front.len() && binding_of(cfg, #[trigger] front[i]) == Some(
                    (key, collected(cfg, front)[key]),
                );
            assert(front[i] == entries[i]);
        }
    }
}

/// Every variable that is read has its key in the map.
pub proof fn lemma_collected_holds_key(cfg: Settings, entries: Seq<RawEntryView>, i: int)
    requires
        0 <= i < entries.len(),
        binding_of(cfg, entries[i]) is Some,
    ensures
        collected(cfg, entries).dom().contains(normalized_key(cfg, entries[i].name)->0),
    decreases entries.len(),
{
    let front = entries.drop_last();
    if i < entries.len() - 1 {
        assert(front[i] == entries[i]);
        lemma_collected_holds_key(cfg, front, i);
    }
}

/// A variable that is read, and that no later variable of the snapshot
/// replaces under its key, has its value in the map.
pub proof fn lemma_collected_last_wins(
    cfg: Settings,
    entries: Seq<RawEntryView>,
    i: int,
    key: Seq<char>,
    value: ValueView,
)
    requires
        0 <= i < entries.len(),
        binding_of(cfg, entries[i]) == Some((key, value)),
        forall|j: int|
            i < j < entries.len() ==> !(binding_of(cfg, #[trigger] entries[j]) is Some
                && normalized_key(cfg, entries[j].name) == Some(key)),
    ensures
        collected(cfg, entries).dom().contains(key),
        collected(cfg, entries)[key] == value,
    decreases entries.len(),
{
    let front = entries.drop_last();
    if i < entries.len() - 1 {
        assert(front[i] == entries[i]);
        assert forall|j: int| i < j < front.len() implies !(binding_of(cfg, #[trigger] front[j])
            is Some && normalized_key(cfg, front[j].name) == Some(key)) by {
            assert(front[j] == entries[j]);
        }
        lemma_collected_last_wins(cfg, front, i, key, value);
        let last = entries[entries.len() - 1];
        assert(!(binding_of(cfg, last) is Some && normalized_key(cfg, last.name) == Some(key)));
    }
}

/// Where empty values count as unset, no key of the map has its value from a
/// variable with an empty value: each has it from one whose value is not empty.
pub proof fn lemma_empty_values_left_out(
    cfg: Settings,
    entries: Seq<RawEntryView>,
    key: Seq<char>,
)
    requires
        cfg.ignore_empty,
        collected(cfg, entries).dom().contains(key),
    ensures
        exists|i: int|
            0 <= i < entries.len() && (#[trigger] entries[i]).value.len() > 0 && binding_of(
                cfg,
                entries[i],
            ) == Some((key, collected(cfg, entries)[key])),
{
    lemma_collected_origin(cfg, entries, key);
    let i = choose|i: int|
        0 <= i < entries.len() && binding_of(cfg, #[trigger] entries[i]) == Some(
            (key, collected(cfg, entries)[key]),
        );
    assert(entries[i].value.len() > 0);
}

/// Where empty values count as unset, a snapshot of variables that all have
/// empty values gives the empty map.
pub proof fn lemma_only_empty_values(cfg: Settings, entries: Seq<RawEntryView>)
    requires
        cfg.ignore_empty,
        forall|i: int| 0 <= i < entries.len() ==> (#[trigger] entries[i]).value.len() == 0,
    ensures
        collected(cfg, entries) == Map::<Seq<char>, ValueView>::empty(),
    decreases entries.len(),
{
    if entries.len() > 0 {
        let front = entries.drop_last();
        assert forall|i: int| 0 <= i < front.len() implies (#[trigger] front[i]).value.len()
            == 0 by {
            assert(front[i] == entries[i]);
        }
        lemma_only_empty_values(cfg, front);
        assert(entries[entries.len() - 1].value.len() == 0);
    }
}

} // verus!
