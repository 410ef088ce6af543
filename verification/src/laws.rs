//! What holds of the library across calls: selections that undo
//! themselves, filters that split the task list, limits that the settings
//! keep, and the rules of the recording board.
use vstd::prelude::*;
use crate::batch::{addresses_in, is_address_line, item_ids, items_without, selected_items, waiting_count, BatchItem};
use crate::download::{all_digits, best_audio_suffix, download_command, format_request};
use crate::types::DownloadVideoOptions;
use crate::formats::{
    insert_point, best_first, best_quality_offer, lemma_best_first_len, lemma_insert_point, offered_formats, ranks_below,
    take_all, take_format, FormatSource, FormatView, PassState, empty_pass, has_video, has_audio, combined_default,
    video_key,
};
use crate::size::{decimal_parts, digits_value, float_bytes, is_digit, lemma_digit_run, per_second, size_value, u64_max};
use crate::scaling::scaled_floor;
use crate::task_store::{finished, updated, TaskRecord, TaskUpdate};
use crate::home::DownloadOutcome;
use crate::notification::{newest, without_notification, Notification};
use crate::record::board::{
    has_id, id_at, ids_unique, monitoring_toggled, recording_marked, recording_stopped, refusal_of,
    room_added, room_removed, RemoveRefusal, RoomEntry, StartRefusal, changed_at, checked,
    check_needs_save, check_starts_recording, CheckOutcome, RoomInfo,
};
use crate::record::LiveStatus;
use crate::selection::toggled;
use crate::settings::{lowered, max_concurrent, min_concurrent, raised};
use crate::tasks::{completed_ids, keeps, kept_positions, not_completed, without_id, TaskFilter, TaskRow, TaskState};
use crate::text::{contains, ends_with, is_ws, lemma_find_from, occurs_at, starts_with, trim, trim_end_matches};
use crate::theme::manager::{toggled_theme, ThemeManager};
use crate::theme::{resolve, AppTheme, ResolvedTheme};

verus! {

// ---------------------------------------------------------------------
// Selections
// ---------------------------------------------------------------------

/// Toggling the same id twice gives the selection back unchanged.
pub proof fn law_toggle_twice(s: Set<Seq<char>>, id: Seq<char>)
    ensures
        toggled(toggled(s, id), id) == s,
{
    assert(toggled(toggled(s, id), id) =~= s);
}

/// Inverting the choice of a playlist twice keeps the chosen videos that
/// belong to the playlist, so it gives the choice back when only videos of
/// the playlist were chosen.
pub proof fn law_invert_twice(all: Set<Seq<char>>, chosen: Set<Seq<char>>)
    ensures
        all.difference(all.difference(chosen)) == all.intersect(chosen),
        chosen.subset_of(all) ==> all.difference(all.difference(chosen)) == chosen,
{
    assert(all.difference(all.difference(chosen)) =~= all.intersect(chosen));
    if chosen.subset_of(all) {
        assert(all.intersect(chosen) =~= chosen);
    }
}

/// Inverting after choosing every video chooses none.
pub proof fn law_select_all_then_invert(all: Set<Seq<char>>)
    ensures
        all.difference(all) == Set::<Seq<char>>::empty(),
{
    assert(all.difference(all) =~= Set::<Seq<char>>::empty());
}

/// Once every item is selected, the selected items are all the items, in order.
pub proof fn law_select_all_lists_every_item(s: Seq<BatchItem>)
    ensures
        selected_items(s, item_ids(s).to_set()) == s,
{
    assert forall|i: int| 0 <= i < s.len() implies item_ids(s).to_set().contains(#[trigger] s[i].id@) by {
        assert(item_ids(s)[i] == s[i].id@);
        assert(item_ids(s).contains(s[i].id@));
    }
    lemma_all_selected(s, item_ids(s).to_set());
}

proof fn lemma_all_selected(s: Seq<BatchItem>, sel: Set<Seq<char>>)
    requires
        forall|i: int| 0 <= i < s.len() ==> sel.contains(#[trigger] s[i].id@),
    ensures
        selected_items(s, sel) == s,
    decreases s.len(),
{
    if s.len() > 0 {
        let init = s.drop_last();
        assert forall|i: int| 0 <= i < init.len() implies sel.contains(#[trigger] init[i].id@) by {
            assert(init[i] == s[i]);
        }
        lemma_all_selected(init, sel);
        assert(sel.contains(s[s.len() - 1].id@));
        assert(init.push(s.last()) =~= s);
    }
}

/// After removing the items with an id, no item has it, and the others
/// remain.
pub proof fn law_removed_item_is_gone(s: Seq<BatchItem>, id: Seq<char>)
    ensures
        forall|i: int| 0 <= i < items_without(s, id).len() ==> (#[trigger] items_without(s, id)[i]).id@ != id,
        items_without(s, id).len() <= s.len(),
        forall|i: int| 0 <= i < s.len() && s[i].id@ != id ==> items_without(s, id).contains(#[trigger] s[i]),
    decreases s.len(),
{
    if s.len() > 0 {
        let init = s.drop_last();
        law_removed_item_is_gone(init, id);
        let r = items_without(init, id);
        assert forall|i: int| 0 <= i < items_without(s, id).len() implies (#[trigger] items_without(s, id)[i]).id@
            != id by {
            if s.last().id@ != id {
                assert(items_without(s, id) == r.push(s.last()));
                if i < r.len() {
                    assert(items_without(s, id)[i] == r[i]);
                    assert(r[i].id@ != id);
                }
            } else {
                assert(items_without(s, id) == r);
                assert(r[i].id@ != id);
            }
        }
        assert forall|i: int| 0 <= i < s.len() && s[i].id@ != id implies items_without(s, id).contains(
            #[trigger] s[i],
        ) by {
            if i < init.len() {
                assert(init[i] == s[i]);
                let j = choose|j: int| 0 <= j < r.len() && r[j] == init[i];
                if s.last().id@ != id {
                    assert(r.push(s.last())[j] == s[i]);
                }
            } else {
                assert(r.push(s.last())[r.len() as int] == s[i]);
            }
        }
    }
}

/// No more items wait than there are items.
pub proof fn law_pending_at_most_all(s: Seq<BatchItem>)
    ensures
        waiting_count(s) <= s.len(),
    decreases s.len(),
{
    if s.len() > 0 {
        law_pending_at_most_all(s.drop_last());
    }
}

/// Every address taken from imported text is trimmed, not empty, and
/// starts with `http://` or `https://`.
pub proof fn law_imported_addresses_are_links(ls: Seq<Seq<char>>)
    ensures
        forall|k: int| 0 <= k < addresses_in(ls).len() ==> {
            let a = #[trigger] addresses_in(ls)[k];
            &&& a.len() > 0
            &&& starts_with(a, "http://"@) || starts_with(a, "https://"@)
        },
    decreases ls.len(),
{
    if ls.len() > 0 {
        law_imported_addresses_are_links(ls.drop_last());
        let prev = addresses_in(ls.drop_last());
        assert forall|k: int| 0 <= k < addresses_in(ls).len() implies {
            let a = #[trigger] addresses_in(ls)[k];
            &&& a.len() > 0
            &&& starts_with(a, "http://"@) || starts_with(a, "https://"@)
        } by {
            if is_address_line(ls.last()) && k == prev.len() {
                assert(addresses_in(ls)[k] == trim(ls.last()));
            } else {
                assert(addresses_in(ls)[k] == prev[k]);
            }
        }
    }
}

// ---------------------------------------------------------------------
// Sizes
// ---------------------------------------------------------------------

proof fn lemma_ends_with_last(t: Seq<char>, u: Seq<char>)
    requires
        ends_with(t, u),
        u.len() > 0,
    ensures
        t.last() == u.last(),
{
    assert(t.skip(t.len() - u.len())[u.len() - 1] == t.last());
}

/// A speed reads as the size it is per second: a size word followed by
/// `/s` gives the bytes that the word gives.
pub proof fn law_speed_is_size_per_second(w: Seq<char>)
    requires
        w.len() > 0,
        !is_ws(w[0]),
        !ends_with(w, per_second()),
    ensures
        size_value(w + per_second()) == size_value(w),
{
    let t = w + per_second();
    assert(t[0] == w[0]);
    assert(t.last() == 's');
    assert(trim(t) == t);
    assert(!ends_with(t, crate::size::unit_gib())) by {
        if ends_with(t, crate::size::unit_gib()) {
            lemma_ends_with_last(t, crate::size::unit_gib());
        }
    }
    assert(!ends_with(t, crate::size::unit_gb())) by {
        if ends_with(t, crate::size::unit_gb()) {
            lemma_ends_with_last(t, crate::size::unit_gb());
        }
    }
    assert(!ends_with(t, crate::size::unit_mib())) by {
        if ends_with(t, crate::size::unit_mib()) {
            lemma_ends_with_last(t, crate::size::unit_mib());
        }
    }
    assert(!ends_with(t, crate::size::unit_mb())) by {
        if ends_with(t, crate::size::unit_mb()) {
            lemma_ends_with_last(t, crate::size::unit_mb());
        }
    }
    assert(!ends_with(t, crate::size::unit_kib())) by {
        if ends_with(t, crate::size::unit_kib()) {
            lemma_ends_with_last(t, crate::size::unit_kib());
        }
    }
    assert(!ends_with(t, crate::size::unit_kb())) by {
        if ends_with(t, crate::size::unit_kb()) {
            lemma_ends_with_last(t, crate::size::unit_kb());
        }
    }
    assert(!ends_with(t, crate::size::unit_b())) by {
        if ends_with(t, crate::size::unit_b()) {
            lemma_ends_with_last(t, crate::size::unit_b());
        }
    }
    assert(!crate::size::is_unknown_size(t)) by {
        if t == seq!['N', '/', 'A'] {
            assert(t.last() == 'A');
        }
        if t == seq!['~'] {
            assert(t.last() == '~');
        }
        if t == seq!['U', 'n', 'k', 'n', 'o', 'w', 'n'] {
            assert(t.last() == 'n');
        }
    }
    assert(ends_with(t, per_second())) by {
        assert(t.skip(t.len() - 2) =~= per_second());
    }
    assert(t.take(t.len() - 2) =~= w);
    assert(trim_end_matches(t, per_second()) == trim_end_matches(w, per_second()));
    assert(trim_end_matches(w, per_second()) == w);
}

/// A speed text is read exactly like the size it is built from: a text
/// whose trimmed form ends with `/s` gives the bytes of that form without
/// its trailing `/s`.
pub proof fn law_speed_reads_as_its_size(s: Seq<char>)
    requires
        ends_with(trim(s), per_second()),
    ensures
        size_value(s) == size_value(trim_end_matches(trim(s), per_second())),
{
    let t = trim(s);
    lemma_ends_with_last(t, per_second());
    assert(t.last() == 's');
    assert(!crate::size::is_unknown_size(t)) by {
        if t == seq!['N', '/', 'A'] {
            assert(t.last() == 'A');
        }
        if t == seq!['~'] {
            assert(t.last() == '~');
        }
        if t == seq!['U', 'n', 'k', 'n', 'o', 'w', 'n'] {
            assert(t.last() == 'n');
        }
    }
    assert(!ends_with(t, crate::size::unit_gib())) by {
        if ends_with(t, crate::size::unit_gib()) {
            lemma_ends_with_last(t, crate::size::unit_gib());
        }
    }
    assert(!ends_with(t, crate::size::unit_gb())) by {
        if ends_with(t, crate::size::unit_gb()) {
            lemma_ends_with_last(t, crate::size::unit_gb());
        }
    }
    assert(!ends_with(t, crate::size::unit_mib())) by {
        if ends_with(t, crate::size::unit_mib()) {
            lemma_ends_with_last(t, crate::size::unit_mib());
        }
    }
    assert(!ends_with(t, crate::size::unit_mb())) by {
        if ends_with(t, crate::size::unit_mb()) {
            lemma_ends_with_last(t, crate::size::unit_mb());
        }
    }
    assert(!ends_with(t, crate::size::unit_kib())) by {
        if ends_with(t, crate::size::unit_kib()) {
            lemma_ends_with_last(t, crate::size::unit_kib());
        }
    }
    assert(!ends_with(t, crate::size::unit_kb())) by {
        if ends_with(t, crate::size::unit_kb()) {
            lemma_ends_with_last(t, crate::size::unit_kb());
        }
    }
    assert(!ends_with(t, crate::size::unit_b())) by {
        if ends_with(t, crate::size::unit_b()) {
            lemma_ends_with_last(t, crate::size::unit_b());
        }
    }
}

/// A count of bytes written as plain decimal digits reads as itself, where
/// it fits in `u64`.
pub proof fn law_plain_count_reads_as_itself(d: Seq<char>)
    requires
        d.len() > 0,
        forall|k: int| 0 <= k < d.len() ==> is_digit(#[trigger] d[k]),
        digits_value(d) <= u64_max(),
    ensures
        size_value(d) == digits_value(d),
{
    let last = d[d.len() - 1];
    assert(is_digit(d[0]) && is_digit(last));
    assert(d.last() == last);
    assert(trim(d) == d);
    assert(!crate::size::is_unknown_size(d)) by {
        if d == seq!['N', '/', 'A'] {
            assert(d[0] == 'N');
        }
        if d == seq!['~'] {
            assert(d[0] == '~');
        }
        if d == seq!['U', 'n', 'k', 'n', 'o', 'w', 'n'] {
            assert(d[0] == 'U');
        }
    }
    assert(!ends_with(d, crate::size::unit_gib())) by {
        if ends_with(d, crate::size::unit_gib()) {
            lemma_ends_with_last(d, crate::size::unit_gib());
        }
    }
    assert(!ends_with(d, crate::size::unit_gb())) by {
        if ends_with(d, crate::size::unit_gb()) {
            lemma_ends_with_last(d, crate::size::unit_gb());
        }
    }
    assert(!ends_with(d, crate::size::unit_mib())) by {
        if ends_with(d, crate::size::unit_mib()) {
            lemma_ends_with_last(d, crate::size::unit_mib());
        }
    }
    assert(!ends_with(d, crate::size::unit_mb())) by {
        if ends_with(d, crate::size::unit_mb()) {
            lemma_ends_with_last(d, crate::size::unit_mb());
        }
    }
    assert(!ends_with(d, crate::size::unit_kib())) by {
        if ends_with(d, crate::size::unit_kib()) {
            lemma_ends_with_last(d, crate::size::unit_kib());
        }
    }
    assert(!ends_with(d, crate::size::unit_kb())) by {
        if ends_with(d, crate::size::unit_kb()) {
            lemma_ends_with_last(d, crate::size::unit_kb());
        }
    }
    assert(!ends_with(d, crate::size::unit_b())) by {
        if ends_with(d, crate::size::unit_b()) {
            lemma_ends_with_last(d, crate::size::unit_b());
        }
    }
    assert(!ends_with(d, per_second())) by {
        if ends_with(d, per_second()) {
            lemma_ends_with_last(d, per_second());
        }
    }
    lemma_plain_digits_round_to_themselves(d);
}

/// The reading of plain digits is their value, where it fits in `u64`.
proof fn lemma_plain_digits_round_to_themselves(d: Seq<char>)
    requires
        d.len() > 0,
        forall|k: int| 0 <= k < d.len() ==> is_digit(#[trigger] d[k]),
        digits_value(d) <= u64_max(),
    ensures
        float_bytes(d, 1) == digits_value(d),
{
    assert(is_digit(d[0]));
    assert(!crate::size::eq_ignore_case(d, seq!['i', 'n', 'f']));
    assert(!crate::size::eq_ignore_case(d, seq!['i', 'n', 'f', 'i', 'n', 'i', 't', 'y']));
    assert(!crate::size::eq_ignore_case(d, seq!['n', 'a', 'n']));
    lemma_digit_run(d, d.len() as int);
    assert(d.take(d.len() as int) + Seq::<char>::empty() =~= d);
    assert(decimal_parts(d) == Some((d, d.len() as int)));
    assert(crate::size::pow10(0) == 1);
    assert(scaled_floor(d, d.len() as int, 1) == digits_value(d) * 1 * crate::size::pow10(0));
}

/// The floating-point reading of plain digits in `m` units is their value
/// times `m`, at most `u64::MAX`.
proof fn lemma_plain_digits_scaled(d: Seq<char>, m: nat)
    requires
        d.len() > 0,
        forall|k: int| 0 <= k < d.len() ==> is_digit(#[trigger] d[k]),
    ensures
        float_bytes(d, m) == crate::size::min_nat(digits_value(d) * m, u64_max()),
{
    assert(is_digit(d[0]));
    assert(!crate::size::eq_ignore_case(d, seq!['i', 'n', 'f']));
    assert(!crate::size::eq_ignore_case(d, seq!['i', 'n', 'f', 'i', 'n', 'i', 't', 'y']));
    assert(!crate::size::eq_ignore_case(d, seq!['n', 'a', 'n']));
    lemma_digit_run(d, d.len() as int);
    assert(d.take(d.len() as int) + Seq::<char>::empty() =~= d);
    assert(decimal_parts(d) == Some((d, d.len() as int)));
    assert(crate::size::pow10(0) == 1);
    assert(scaled_floor(d, d.len() as int, m) == digits_value(d) * m * crate::size::pow10(0));
    assert(digits_value(d) * m * 1 == digits_value(d) * m);
}

/// A suffix `v` of `t` agrees with `t` at each of its places.
proof fn lemma_ends_with_at(t: Seq<char>, v: Seq<char>, k: int)
    requires
        ends_with(t, v),
        0 <= k < v.len(),
    ensures
        t[t.len() - v.len() + k] == v[k],
{
    assert(t.skip(t.len() - v.len())[k] == t[t.len() - v.len() + k]);
}

/// Digits followed by the unit `u` (a unit ending in `B`): the text is its
/// own trim, is no unknown size, ends with `u`, and loses exactly `u` when
/// `u` is trimmed off its end.
proof fn lemma_digits_then_unit(d: Seq<char>, u: Seq<char>)
    requires
        d.len() > 0,
        forall|k: int| 0 <= k < d.len() ==> is_digit(#[trigger] d[k]),
        u.len() > 0,
        u.last() == 'B',
        forall|k: int| 0 <= k < u.len() ==> !is_ws(#[trigger] u[k]) && !is_digit(u[k]),
    ensures
        trim(d + u) == d + u,
        !crate::size::is_unknown_size(d + u),
        ends_with(d + u, u),
        trim_end_matches(d + u, u) == d,
        trim(d) == d,
        forall|w: Seq<char>| w.len() > 0 && w.last() == 'B' ==> #[trigger] trim_end_matches(d, w) == d,
        (d + u)[d.len() as int - 1] == d.last(),
        is_digit(d.last()),
{
    let t = d + u;
    assert(is_digit(d[0]));
    assert(t[0] == d[0]);
    assert(t.last() == 'B');
    assert(is_digit(d.last()));
    assert(d.last() == d[d.len() - 1]);
    assert(trim(t) == t);
    assert(trim(d) == d);
    assert(!crate::size::is_unknown_size(t)) by {
        if t == seq!['N', '/', 'A'] {
            assert(t.last() == 'A');
        }
        if t == seq!['~'] {
            assert(t.last() == '~');
        }
        if t == seq!['U', 'n', 'k', 'n', 'o', 'w', 'n'] {
            assert(t.last() == 'n');
        }
    }
    assert(t.skip(t.len() - u.len()) =~= u);
    assert(t.take(t.len() - u.len()) =~= d);
    assert forall|w: Seq<char>| w.len() > 0 && w.last() == 'B' implies #[trigger] trim_end_matches(d, w) == d by {
        if ends_with(d, w) {
            lemma_ends_with_last(d, w);
        }
    }
    assert(trim_end_matches(d, u) == d);
}

/// A size written as plain digits and a unit is that many units: 1 byte
/// for `B`, 1024 for `KB` and `KiB`, 1024^2 for `MB` and `MiB`, 1024^3 for
/// `GB` and `GiB` (the two spellings of a unit mean the same), at most
/// `u64::MAX`.
pub proof fn law_units_scale_plain_counts(d: Seq<char>)
    requires
        d.len() > 0,
        forall|k: int| 0 <= k < d.len() ==> is_digit(#[trigger] d[k]),
    ensures
        size_value(d + seq!['B']) == crate::size::min_nat(digits_value(d), u64_max()),
        size_value(d + seq!['K', 'B']) == crate::size::min_nat(digits_value(d) * 1024, u64_max()),
        size_value(d + seq!['K', 'i', 'B']) == crate::size::min_nat(digits_value(d) * 1024, u64_max()),
        size_value(d + seq!['M', 'B']) == crate::size::min_nat(digits_value(d) * 1048576, u64_max()),
        size_value(d + seq!['M', 'i', 'B']) == crate::size::min_nat(digits_value(d) * 1048576, u64_max()),
        size_value(d + seq!['G', 'B']) == crate::size::min_nat(digits_value(d) * 1073741824, u64_max()),
        size_value(d + seq!['G', 'i', 'B']) == crate::size::min_nat(digits_value(d) * 1073741824, u64_max()),
{
    let n = d.len() as int;
    let gib = crate::size::unit_gib();
    let gb = crate::size::unit_gb();
    let mib = crate::size::unit_mib();
    let mb = crate::size::unit_mb();
    let kib = crate::size::unit_kib();
    let kb = crate::size::unit_kb();
    let b = crate::size::unit_b();
    lemma_plain_digits_scaled(d, 1);
    lemma_plain_digits_scaled(d, 1024);
    lemma_plain_digits_scaled(d, 1048576);
    lemma_plain_digits_scaled(d, 1073741824);
    assert(digits_value(d) * 1 == digits_value(d));
    // B
    {
        let t = d + b;
        lemma_digits_then_unit(d, b);
        assert(!ends_with(t, gib)) by { if ends_with(t, gib) { lemma_ends_with_at(t, gib, 1); } }
        assert(!ends_with(t, gb)) by { if ends_with(t, gb) { lemma_ends_with_at(t, gb, 0); } }
        assert(!ends_with(t, mib)) by { if ends_with(t, mib) { lemma_ends_with_at(t, mib, 1); } }
        assert(!ends_with(t, mb)) by { if ends_with(t, mb) { lemma_ends_with_at(t, mb, 0); } }
        assert(!ends_with(t, kib)) by { if ends_with(t, kib) { lemma_ends_with_at(t, kib, 1); } }
        assert(!ends_with(t, kb)) by { if ends_with(t, kb) { lemma_ends_with_at(t, kb, 0); } }
        assert(b =~= seq!['B']);
    }
    // KB and KiB
    {
        let t = d + kb;
        lemma_digits_then_unit(d, kb);
        assert(t[n] == 'K');
        assert(!ends_with(t, gib)) by { if ends_with(t, gib) { lemma_ends_with_at(t, gib, 1); } }
        assert(!ends_with(t, gb)) by { if ends_with(t, gb) { lemma_ends_with_at(t, gb, 0); } }
        assert(!ends_with(t, mib)) by { if ends_with(t, mib) { lemma_ends_with_at(t, mib, 1); } }
        assert(!ends_with(t, mb)) by { if ends_with(t, mb) { lemma_ends_with_at(t, mb, 0); } }
        assert(!ends_with(t, kib)) by { if ends_with(t, kib) { lemma_ends_with_at(t, kib, 1); } }
        assert(trim_end_matches(t, kib) == t);
        assert(kb =~= seq!['K', 'B']);
    }
    {
        let t = d + kib;
        lemma_digits_then_unit(d, kib);
        assert(t[n] == 'K' && t[n + 1] == 'i');
        assert(!ends_with(t, gib)) by { if ends_with(t, gib) { lemma_ends_with_at(t, gib, 0); } }
        assert(!ends_with(t, gb)) by { if ends_with(t, gb) { lemma_ends_with_at(t, gb, 0); } }
        assert(!ends_with(t, mib)) by { if ends_with(t, mib) { lemma_ends_with_at(t, mib, 0); } }
        assert(!ends_with(t, mb)) by { if ends_with(t, mb) { lemma_ends_with_at(t, mb, 0); } }
        assert(kib =~= seq!['K', 'i', 'B']);
    }
    // MB and MiB
    {
        let t = d + mb;
        lemma_digits_then_unit(d, mb);
        assert(t[n] == 'M');
        assert(!ends_with(t, gib)) by { if ends_with(t, gib) { lemma_ends_with_at(t, gib, 1); } }
        assert(!ends_with(t, gb)) by { if ends_with(t, gb) { lemma_ends_with_at(t, gb, 0); } }
        assert(!ends_with(t, mib)) by { if ends_with(t, mib) { lemma_ends_with_at(t, mib, 1); } }
        assert(trim_end_matches(t, mib) == t);
        assert(mb =~= seq!['M', 'B']);
    }
    {
        let t = d + mib;
        lemma_digits_then_unit(d, mib);
        assert(t[n] == 'M' && t[n + 1] == 'i');
        assert(!ends_with(t, gib)) by { if ends_with(t, gib) { lemma_ends_with_at(t, gib, 0); } }
        assert(!ends_with(t, gb)) by { if ends_with(t, gb) { lemma_ends_with_at(t, gb, 0); } }
        assert(mib =~= seq!['M', 'i', 'B']);
    }
    // GB and GiB
    {
        let t = d + gb;
        lemma_digits_then_unit(d, gb);
        assert(t[n] == 'G');
        assert(!ends_with(t, gib)) by { if ends_with(t, gib) { lemma_ends_with_at(t, gib, 1); } }
        assert(trim_end_matches(t, gib) == t);
        assert(gb =~= seq!['G', 'B']);
    }
    {
        let t = d + gib;
        lemma_digits_then_unit(d, gib);
        assert(gib =~= seq!['G', 'i', 'B']);
    }
}

/// `on` is `off` with `flags` put in at one place, everything else kept.
pub open spec fn inserted_at_one_place(off: Seq<Seq<char>>, on: Seq<Seq<char>>, flags: Seq<Seq<char>>) -> bool {
    exists|i: int| 0 <= i <= off.len() && on == off.take(i) + flags + off.skip(i)
}

/// Putting `x` between `a` and `b` inserts it at one place of `a + b`.
proof fn lemma_insert_between(a: Seq<Seq<char>>, x: Seq<Seq<char>>, b: Seq<Seq<char>>)
    ensures
        inserted_at_one_place(a + b, a + x + b, x),
{
    let off = a + b;
    assert(off.take(a.len() as int) =~= a);
    assert(off.skip(a.len() as int) =~= b);
    assert(a + x + b =~= off.take(a.len() as int) + x + off.skip(a.len() as int));
}

/// The fixed start of a download command.
spec fn command_start(url: Seq<char>, format_id: Seq<char>, output_dir: Seq<char>) -> Seq<Seq<char>> {
    seq![
        url,
        "--format"@,
        crate::download::format_request(format_id),
        "--output"@,
        crate::paths::std_path_join(output_dir, crate::download::output_template_name()),
        "--newline"@,
        "--progress"@,
        "--no-mtime"@,
    ]
}

proof fn lemma_flag(x: Seq<Seq<char>>)
    ensures
        crate::download::flag_args(true, x) == x,
        crate::download::flag_args(false, x) == Seq::<Seq<char>>::empty(),
{
}

/// Turning subtitles on puts in `--write-subs --write-auto-subs` at one
/// place of the otherwise unchanged command, whatever the other options.
pub proof fn law_subtitles_add_only_their_flags(
    url: Seq<char>,
    format_id: Seq<char>,
    output_dir: Seq<char>,
    o: DownloadVideoOptions,
    ffmpeg: Option<Seq<char>>,
)
    ensures
        inserted_at_one_place(
            download_command(url, format_id, output_dir, DownloadVideoOptions { download_subtitles: false, ..o }, ffmpeg),
            download_command(url, format_id, output_dir, DownloadVideoOptions { download_subtitles: true, ..o }, ffmpeg),
            seq!["--write-subs"@, "--write-auto-subs"@],
        ),
{
    let x = seq!["--write-subs"@, "--write-auto-subs"@];
    let a = command_start(url, format_id, output_dir)
        + crate::download::flag_args(o.embed_metadata, seq!["--embed-metadata"@])
        + crate::download::flag_args(o.embed_thumbnail, seq!["--embed-thumbnail"@])
        + crate::download::flag_args(o.audio_only, seq!["--extract-audio"@, "--audio-format"@, "mp3"@]);
    let b = crate::download::ffmpeg_args(ffmpeg);
    lemma_flag(x);
    lemma_insert_between(a, x, b);
    assert(download_command(url, format_id, output_dir, DownloadVideoOptions { download_subtitles: false, ..o }, ffmpeg) =~= a + b);
    assert(download_command(url, format_id, output_dir, DownloadVideoOptions { download_subtitles: true, ..o }, ffmpeg) =~= a + x + b);
}

/// Turning metadata on puts in `--embed-metadata` at one place of the
/// otherwise unchanged command, whatever the other options.
pub proof fn law_metadata_adds_only_its_flag(
    url: Seq<char>,
    format_id: Seq<char>,
    output_dir: Seq<char>,
    o: DownloadVideoOptions,
    ffmpeg: Option<Seq<char>>,
)
    ensures
        inserted_at_one_place(
            download_command(url, format_id, output_dir, DownloadVideoOptions { embed_metadata: false, ..o }, ffmpeg),
            download_command(url, format_id, output_dir, DownloadVideoOptions { embed_metadata: true, ..o }, ffmpeg),
            seq!["--embed-metadata"@],
        ),
{
    let x = seq!["--embed-metadata"@];
    let a = command_start(url, format_id, output_dir);
    let b = crate::download::flag_args(o.embed_thumbnail, seq!["--embed-thumbnail"@])
        + crate::download::flag_args(o.audio_only, seq!["--extract-audio"@, "--audio-format"@, "mp3"@])
        + crate::download::flag_args(o.download_subtitles, seq!["--write-subs"@, "--write-auto-subs"@])
        + crate::download::ffmpeg_args(ffmpeg);
    lemma_flag(x);
    lemma_insert_between(a, x, b);
    assert(download_command(url, format_id, output_dir, DownloadVideoOptions { embed_metadata: false, ..o }, ffmpeg) =~= a + b);
    assert(download_command(url, format_id, output_dir, DownloadVideoOptions { embed_metadata: true, ..o }, ffmpeg) =~= a + x + b);
}

/// Turning the thumbnail on puts in `--embed-thumbnail` at one place of
/// the otherwise unchanged command, whatever the other options.
pub proof fn law_thumbnail_adds_only_its_flag(
    url: Seq<char>,
    format_id: Seq<char>,
    output_dir: Seq<char>,
    o: DownloadVideoOptions,
    ffmpeg: Option<Seq<char>>,
)
    ensures
        inserted_at_one_place(
            download_command(url, format_id, output_dir, DownloadVideoOptions { embed_thumbnail: false, ..o }, ffmpeg),
            download_command(url, format_id, output_dir, DownloadVideoOptions { embed_thumbnail: true, ..o }, ffmpeg),
            seq!["--embed-thumbnail"@],
        ),
{
    let x = seq!["--embed-thumbnail"@];
    let a = command_start(url, format_id, output_dir)
        + crate::download::flag_args(o.embed_metadata, seq!["--embed-metadata"@]);
    let b = crate::download::flag_args(o.audio_only, seq!["--extract-audio"@, "--audio-format"@, "mp3"@])
        + crate::download::flag_args(o.download_subtitles, seq!["--write-subs"@, "--write-auto-subs"@])
        + crate::download::ffmpeg_args(ffmpeg);
    lemma_flag(x);
    lemma_insert_between(a, x, b);
    assert(download_command(url, format_id, output_dir, DownloadVideoOptions { embed_thumbnail: false, ..o }, ffmpeg) =~= a + b);
    assert(download_command(url, format_id, output_dir, DownloadVideoOptions { embed_thumbnail: true, ..o }, ffmpeg) =~= a + x + b);
}

/// Turning audio alone on puts in `--extract-audio --audio-format mp3` at
/// one place of the otherwise unchanged command, whatever the other options.
pub proof fn law_audio_only_adds_only_its_flags(
    url: Seq<char>,
    format_id: Seq<char>,
    output_dir: Seq<char>,
    o: DownloadVideoOptions,
    ffmpeg: Option<Seq<char>>,
)
    ensures
        inserted_at_one_place(
            download_command(url, format_id, output_dir, DownloadVideoOptions { audio_only: false, ..o }, ffmpeg),
            download_command(url, format_id, output_dir, DownloadVideoOptions { audio_only: true, ..o }, ffmpeg),
            seq!["--extract-audio"@, "--audio-format"@, "mp3"@],
        ),
{
    let x = seq!["--extract-audio"@, "--audio-format"@, "mp3"@];
    let a = command_start(url, format_id, output_dir)
        + crate::download::flag_args(o.embed_metadata, seq!["--embed-metadata"@])
        + crate::download::flag_args(o.embed_thumbnail, seq!["--embed-thumbnail"@]);
    let b = crate::download::flag_args(o.download_subtitles, seq!["--write-subs"@, "--write-auto-subs"@])
        + crate::download::ffmpeg_args(ffmpeg);
    lemma_flag(x);
    lemma_insert_between(a, x, b);
    assert(download_command(url, format_id, output_dir, DownloadVideoOptions { audio_only: false, ..o }, ffmpeg) =~= a + b);
    assert(download_command(url, format_id, output_dir, DownloadVideoOptions { audio_only: true, ..o }, ffmpeg) =~= a + x + b);
}

// ---------------------------------------------------------------------
// Tasks
// ---------------------------------------------------------------------

/// The "all" filter keeps every task, and each task is kept by exactly one
/// of the other three filters.
pub proof fn law_filters_partition(s: TaskState)
    ensures
        keeps(TaskFilter::All, s),
        keeps(TaskFilter::Downloading, s) || keeps(TaskFilter::Completed, s) || keeps(TaskFilter::Failed, s),
        !(keeps(TaskFilter::Downloading, s) && keeps(TaskFilter::Completed, s)),
        !(keeps(TaskFilter::Downloading, s) && keeps(TaskFilter::Failed, s)),
        !(keeps(TaskFilter::Completed, s) && keeps(TaskFilter::Failed, s)),
{
}

/// The counts of the downloading, completed and failed tabs add up to the
/// count of the "all" tab, which is every task.
pub proof fn law_filter_counts_add_up<P>(s: Seq<TaskRow<P>>)
    ensures
        kept_positions(s, TaskFilter::All).len() == s.len(),
        kept_positions(s, TaskFilter::Downloading).len() + kept_positions(s, TaskFilter::Completed).len()
            + kept_positions(s, TaskFilter::Failed).len() == s.len(),
    decreases s.len(),
{
    if s.len() > 0 {
        law_filter_counts_add_up(s.drop_last());
        law_filters_partition(s.last().state);
    }
}

/// Clearing the completed tasks leaves none completed, and every task is
/// either kept or reported as cleared.
pub proof fn law_clear_completed_leaves_none<P>(s: Seq<TaskRow<P>>)
    ensures
        forall|i: int| 0 <= i < not_completed(s).len() ==> !(#[trigger] not_completed(s)[i].state is Completed),
        not_completed(s).len() + completed_ids(s).len() == s.len(),
    decreases s.len(),
{
    if s.len() > 0 {
        law_clear_completed_leaves_none(s.drop_last());
        let prev = not_completed(s.drop_last());
        assert forall|i: int| 0 <= i < not_completed(s).len() implies !(
        #[trigger] not_completed(s)[i].state is Completed) by {
            if !(s.last().state is Completed) && i == prev.len() {
                assert(not_completed(s)[i] == s.last());
            } else {
                assert(not_completed(s)[i] == prev[i]);
            }
        }
    }
}

/// A deleted task is gone from the list.
pub proof fn law_deleted_task_is_gone<P>(s: Seq<TaskRow<P>>, id: u128)
    ensures
        forall|i: int| 0 <= i < without_id(s, id).len() ==> #[trigger] without_id(s, id)[i].id != id,
    decreases s.len(),
{
    if s.len() > 0 {
        law_deleted_task_is_gone(s.drop_last(), id);
        let prev = without_id(s.drop_last(), id);
        assert forall|i: int| 0 <= i < without_id(s, id).len() implies #[trigger] without_id(s, id)[i].id != id by {
            if s.last().id != id && i == prev.len() {
                assert(without_id(s, id)[i] == s.last());
            } else {
                assert(without_id(s, id)[i] == prev[i]);
            }
        }
    }
}

// ---------------------------------------------------------------------
// Settings and theme
// ---------------------------------------------------------------------

/// Raising and lowering the number of downloads at once keeps it between
/// one and ten.
pub proof fn law_concurrency_in_range(n: int)
    requires
        min_concurrent() <= n <= max_concurrent(),
    ensures
        min_concurrent() <= raised(n) <= max_concurrent(),
        min_concurrent() <= lowered(n) <= max_concurrent(),
{
}

/// Lowering undoes raising below the most, and raising undoes lowering
/// above the fewest.
pub proof fn law_raise_then_lower(n: int)
    requires
        min_concurrent() <= n <= max_concurrent(),
    ensures
        n < max_concurrent() ==> lowered(raised(n)) == n,
        n > min_concurrent() ==> raised(lowered(n)) == n,
{
}

/// Toggling the theme twice comes back to the palette one started from,
/// now as an explicit light or dark setting.
pub proof fn law_toggle_theme_twice(m0: ThemeManager, m1: ThemeManager, m2: ThemeManager)
    requires
        m1.current() == toggled_theme(m0.resolved()),
        m1.resolved() != m0.resolved(),
        m2.current() == toggled_theme(m1.resolved()),
        m2.resolved() != m1.resolved(),
    ensures
        m2.resolved() == m0.resolved(),
        m2.current() == (match m0.resolved() {
            ResolvedTheme::Light => AppTheme::Light,
            ResolvedTheme::Dark => AppTheme::Dark,
        }),
        resolve(m2.current(), false) == m0.resolved(),
        resolve(m2.current(), true) == m0.resolved(),
{
    match m0.resolved() {
        ResolvedTheme::Light => {
            assert(m1.resolved() == ResolvedTheme::Dark);
        },
        ResolvedTheme::Dark => {
            assert(m1.resolved() == ResolvedTheme::Light);
        },
    }
}

// ---------------------------------------------------------------------
// Downloads and notifications
// ---------------------------------------------------------------------

/// The format selector of a selector is that selector: asking twice
/// changes nothing.
pub proof fn law_format_request_idempotent(id: Seq<char>)
    ensures
        format_request(format_request(id)) == format_request(id),
{
    let once = format_request(id);
    if once != id {
        reveal_strlit("+bestaudio/best");
        assert(once == id + best_audio_suffix());
        assert(occurs_at(once, seq!['+'], id.len() as int)) by {
            assert(once.subrange(id.len() as int, id.len() as int + 1) =~= seq!['+']) by {
                reveal_strlit("+bestaudio/best");
            }
        }
        lemma_find_from(once, seq!['+'], 0);
        assert(contains(once, seq!['+']));
        assert(!all_digits(once)) by {
            assert(once[id.len() as int] == '+');
            assert(!crate::size::is_digit(once[id.len() as int]));
        }
    }
}

/// Adding a notification keeps at most the visible number, and the one
/// just added is shown last.
pub proof fn law_push_shows_newest<T>(s: Seq<T>, n: T, max: nat)
    requires
        max > 0,
    ensures
        newest(s.push(n), max).len() <= max,
        newest(s.push(n), max).last() == n,
        s.len() < max ==> newest(s.push(n), max) == s.push(n),
{
}

/// A dismissed notification is no longer shown.
pub proof fn law_dismissed_notification_is_gone<P, I>(s: Seq<Notification<P, I>>, id: Seq<char>)
    ensures
        forall|i: int| 0 <= i < without_notification(s, id).len() ==> (#[trigger] without_notification(s, id)[i]).id@
            != id,
        without_notification(s, id).len() <= s.len(),
    decreases s.len(),
{
    if s.len() > 0 {
        law_dismissed_notification_is_gone(s.drop_last(), id);
        let prev = without_notification(s.drop_last(), id);
        assert forall|i: int| 0 <= i < without_notification(s, id).len() implies (#[trigger] without_notification(
            s,
            id,
        )[i]).id@ != id by {
            if s.last().id@ != id {
                assert(without_notification(s, id) == prev.push(s.last()));
                if i < prev.len() {
                    assert(without_notification(s, id)[i] == prev[i]);
                    assert(prev[i].id@ != id);
                }
            } else {
                assert(without_notification(s, id) == prev);
                assert(prev[i].id@ != id);
            }
        }
    }
}

// ---------------------------------------------------------------------
// The recording board
// ---------------------------------------------------------------------

/// Turning watching of a room over twice gives the board back unchanged.
pub proof fn law_toggle_monitoring_twice(o: Seq<RoomEntry>, m: Seq<RoomEntry>, n: Seq<RoomEntry>, id: u128)
    requires
        ids_unique(o),
        monitoring_toggled(o, m, id),
        monitoring_toggled(m, n, id),
    ensures
        n == o,
{
    if has_id(o, id) {
        let i = choose|i: int| id_at(o, id, i);
        assert(id_at(m, id, i));
        assert(n[i].room == o[i].room);
        assert(n[i] == o[i]);
        assert(n =~= o);
    } else {
        assert(!has_id(m, id));
    }
}

/// A room just added, and not yet recording, can be removed again, which
/// gives the board back as it was.
pub proof fn law_add_then_remove(
    o: Seq<RoomEntry>,
    m: Seq<RoomEntry>,
    n: Seq<RoomEntry>,
    url: Seq<char>,
    id: u128,
    r: Result<bool, RemoveRefusal>,
)
    requires
        ids_unique(o),
        !has_id(o, id),
        room_added(o, m, url, id, Ok(())),
        room_removed(m, n, id, r),
    ensures
        r == Ok::<bool, RemoveRefusal>(true),
        n == o,
{
    assert(!crate::record::board::has_url(o, url));
    assert(m.len() == o.len() + 1);
    let last = m.len() - 1;
    assert(m[last] == m.last());
    assert(m[last].room.id == id);
    assert(id_at(m, id, last));
    assert(!m[last].state.is_recording);
    assert(m.remove(last) =~= m.drop_last());
}

/// Once its recording is stopped, a room can be removed.
pub proof fn law_stop_then_remove(
    o: Seq<RoomEntry>,
    m: Seq<RoomEntry>,
    n: Seq<RoomEntry>,
    id: u128,
    auto_transcode: bool,
    plan: crate::record::board::StopPlan,
    r: Result<bool, RemoveRefusal>,
)
    requires
        has_id(o, id),
        recording_stopped(o, m, id, auto_transcode, plan),
        room_removed(m, n, id, r),
    ensures
        r == Ok::<bool, RemoveRefusal>(true),
        n.len() == o.len() - 1,
{
    let i = choose|i: int| id_at(o, id, i);
    assert(m[i].room.id == id);
    assert(id_at(m, id, i));
    assert(!m[i].state.is_recording);
    assert(r == Ok::<bool, RemoveRefusal>(true));
    assert(n == m.remove(i));
}

/// A room that is recording is never started a second time.
pub proof fn law_recording_room_is_not_started(o: Seq<RoomEntry>, m: Seq<RoomEntry>, id: u128, output_path: String)
    requires
        has_id(o, id),
        recording_marked(o, m, id, output_path),
    ensures
        has_id(m, id),
        forall|i: int| id_at(m, id, i) ==> refusal_of(m[i]) is Some,
        forall|i: int| id_at(m, id, i) && m[i].state.status is Live ==> refusal_of(m[i])
            == Some(StartRefusal::AlreadyRecording),
{
    let i = choose|i: int| id_at(o, id, i);
    assert(id_at(m, id, i));
    assert forall|j: int| id_at(m, id, j) implies refusal_of(m[j]) is Some && (m[j].state.status is Live
        ==> refusal_of(m[j]) == Some(StartRefusal::AlreadyRecording)) by {
        if j != i {
            assert(m[j] == o[j]);
        }
        assert(id_at(o, id, j));
    }
}

// ---------------------------------------------------------------------
// The task store
// ---------------------------------------------------------------------

/// The task an update names.
pub open spec fn update_target<P>(u: TaskUpdate<P>) -> u128 {
    match u {
        TaskUpdate::Created(t) => t.id,
        TaskUpdate::Progress(id, _, _, _, _, _) => id,
        TaskUpdate::StateChanged(id, _) => id,
        TaskUpdate::SpeedUpdate(id, _) => id,
        TaskUpdate::Completed(id, _) => id,
        TaskUpdate::Failed(id, _) => id,
    }
}

/// An update touches only the task it names; one for a task that is not
/// stored (other than a new task) changes nothing; a new task can be read
/// back as it was given; a finished task is completed into its file.
pub proof fn law_update_touches_its_task_only<P>(
    m: Map<u128, TaskRecord<P>>,
    u: TaskUpdate<P>,
    now: i64,
    full: P,
)
    ensures
        forall|id: u128| id != update_target(u) ==> (#[trigger] updated(m, u, now, full).contains_key(id)
            == m.contains_key(id)) && (m.contains_key(id) ==> updated(m, u, now, full)[id] == m[id]),
        !(u is Created) && !m.contains_key(update_target(u)) ==> updated(m, u, now, full) == m,
        u matches TaskUpdate::Created(t) ==> updated(m, u, now, full).contains_key(t.id)
            && updated(m, u, now, full)[t.id] == t,
        u matches TaskUpdate::Completed(id, path) ==> m.contains_key(id) ==> updated(m, u, now, full)[id].state
            is Completed && updated(m, u, now, full)[id].output_path == Some(path),
{
}

/// A stored task is read back as it was stored; a removed task is gone,
/// and the other tasks stay as they were.
pub proof fn law_store_read_back<P>(m: Map<u128, TaskRecord<P>>, t: TaskRecord<P>, id: u128)
    ensures
        m.insert(t.id, t).contains_key(t.id),
        m.insert(t.id, t)[t.id] == t,
        !m.remove(id).contains_key(id),
        forall|k: u128| k != id && m.contains_key(k) ==> #[trigger] m.remove(id).contains_key(k) && m.remove(id)[k]
            == m[k],
{
}

// ---------------------------------------------------------------------
// The format list
// ---------------------------------------------------------------------

/// The number of offers that carry audio alone.
pub open spec fn audio_only_count(s: Seq<FormatView>) -> nat
    decreases s.len(),
{
    if s.len() == 0 {
        0
    } else {
        audio_only_count(s.drop_last()) + if !s.last().4 && s.last().5 { 1nat } else { 0nat }
    }
}

proof fn lemma_pass_audio(s: Seq<FormatSource>)
    ensures
        audio_only_count(take_all(s).out) == take_all(s).audio.len(),
        take_all(s).audio.len() <= 3,
    decreases s.len(),
{
    if s.len() > 0 {
        lemma_pass_audio(s.drop_last());
        let st = take_all(s.drop_last());
        let nx = take_format(st, s.last());
        if nx.out.len() > st.out.len() {
            assert(nx.out.drop_last() =~= st.out);
        } else {
            assert(nx.out =~= st.out);
        }
    }
}

/// At most three formats with audio alone are offered.
pub proof fn law_at_most_three_audio_offers(s: Seq<FormatSource>)
    ensures
        audio_only_count(offered_formats(s)) <= 3,
        offered_formats(s).len() > 0,
{
    lemma_pass_audio(best_first(s));
    if take_all(best_first(s)).out.len() == 0 {
        let one = seq![best_quality_offer()];
        assert(one.drop_last() =~= Seq::<FormatView>::empty());
        assert(audio_only_count(Seq::<FormatView>::empty()) == 0);
        assert(one.last() == best_quality_offer());
        assert(audio_only_count(one) == 0);
    }
}

/// The formats come best first: no format ranks above one before it.
pub proof fn law_best_first_is_ordered(s: Seq<FormatSource>)
    ensures
        best_first(s).len() == s.len(),
        forall|i: int, j: int|
            0 <= i < j < best_first(s).len() ==> !ranks_below(#[trigger] best_first(s)[i], #[trigger] best_first(s)[j]),
    decreases s.len(),
{
    lemma_best_first_len(s);
    if s.len() > 0 {
        law_best_first_is_ordered(s.drop_last());
        let l = best_first(s.drop_last());
        let x = s.last();
        lemma_insert_point(l, x);
        let p = insert_point(l, x);
        let r = l.insert(p, x);
        assert(r == best_first(s));
        assert forall|i: int, j: int| 0 <= i < j < r.len() implies !ranks_below(#[trigger] r[i], #[trigger] r[j]) by {
            if j < p {
                assert(r[i] == l[i] && r[j] == l[j]);
            } else if j == p {
                assert(r[i] == l[i] && r[j] == x);
            } else if i < p {
                assert(r[i] == l[i] && r[j] == l[j - 1]);
            } else if i == p {
                assert(r[i] == x && r[j] == l[j - 1]);
                assert(ranks_below(l[p], x));
                if p < j - 1 {
                    assert(!ranks_below(l[p], l[j - 1]));
                }
            } else {
                assert(r[i] == l[i - 1] && r[j] == l[j - 1]);
            }
        }
    }
}


// ---------------------------------------------------------------------
// How a download ends
// ---------------------------------------------------------------------

/// A task takes the state its download ended in: completed, paused,
/// cancelled, or failed with the error; it keeps its id, address and
/// title. A cancelled or failed task shows under the failed tab and not
/// under the downloading one; a paused task shows under downloading.
pub proof fn law_finish_takes_the_outcome<P>(
    r: TaskRecord<P>,
    outcome: DownloadOutcome,
    path: Option<String>,
    size: Option<u64>,
    now: i64,
    full: P,
)
    ensures
        ({
            let n = finished(r, outcome, path, size, now, full);
            &&& n.id == r.id && n.url == r.url && n.title == r.title
            &&& outcome is Completed ==> n.state == TaskState::Completed && keeps(TaskFilter::Completed, n.state)
            &&& outcome is Paused ==> n.state == TaskState::Paused && keeps(TaskFilter::Downloading, n.state)
            &&& outcome is Cancelled ==> n.state == TaskState::Cancelled && keeps(TaskFilter::Failed, n.state)
                && !keeps(TaskFilter::Downloading, n.state)
            &&& outcome matches DownloadOutcome::Failed(e) ==> n.state == TaskState::Failed(e)
                && keeps(TaskFilter::Failed, n.state) && !keeps(TaskFilter::Downloading, n.state)
        }),
{
}

// ---------------------------------------------------------------------
// Live checks
// ---------------------------------------------------------------------

/// A check starts a recording only for a watched room that is live and
/// not recording already: a room whose watching is turned off, or one
/// that is offline, or one that records, is never started by a check;
/// and a check of a room that is not on the board starts nothing. Every
/// watched room that went live and is not recording is started.
pub proof fn law_check_starts_only_watched_live_rooms(
    o: Seq<RoomEntry>,
    n: Seq<RoomEntry>,
    id: u128,
    info: RoomInfo,
    now: i64,
    r: CheckOutcome,
)
    requires
        !has_id(o, id) ==> n == o && !r.need_save && !r.start_recording,
        forall|i: int| id_at(o, id, i) ==> changed_at(o, n, i)
            && checked(o[i], n[i], info, now)
            && r.need_save == check_needs_save(o[i], info)
            && r.start_recording == check_starts_recording(o[i], info),
    ensures
        r.start_recording ==> exists|i: int| #[trigger] id_at(o, id, i) && o[i].room.monitoring_enabled
            && !o[i].state.is_recording && info.status == LiveStatus::Live,
        forall|i: int| #[trigger] id_at(o, id, i) ==> (r.start_recording <==> (o[i].room.monitoring_enabled
            && !o[i].state.is_recording && info.status == LiveStatus::Live)),
{
    if r.start_recording {
        assert(has_id(o, id));
        let i = choose|i: int| id_at(o, id, i);
        assert(id_at(o, id, i));
    }
}


// ---------------------------------------------------------------------
// Duplicate formats
// ---------------------------------------------------------------------

/// The pass over `l` started from `st`.
spec fn take_from(st: PassState, l: Seq<FormatSource>) -> PassState
    decreases l.len(),
{
    if l.len() == 0 {
        st
    } else {
        take_format(take_from(st, l.drop_last()), l.last())
    }
}

proof fn lemma_take_all_is_take_from(l: Seq<FormatSource>)
    ensures
        take_all(l) == take_from(empty_pass(), l),
    decreases l.len(),
{
    if l.len() > 0 {
        lemma_take_all_is_take_from(l.drop_last());
    }
}

proof fn lemma_take_from_concat(st: PassState, a: Seq<FormatSource>, b: Seq<FormatSource>)
    ensures
        take_from(st, a + b) == take_from(take_from(st, a), b),
    decreases b.len(),
{
    if b.len() == 0 {
        assert(a + b =~= a);
    } else {
        lemma_take_from_concat(st, a, b.drop_last());
        assert((a + b).drop_last() =~= a + b.drop_last());
        assert((a + b).last() == b.last());
    }
}

/// A format that the pass state `st` already accounts for: one with
/// neither video nor audio; one of its kind whose key is already offered;
/// an audio-only one whose extension is offered or when three are.
spec fn accounted(st: PassState, f: FormatSource) -> bool {
    let v = has_video(f);
    let a = has_audio(f);
    let d = combined_default(f);
    if !v && !a && !d {
        true
    } else if (v && a) || d {
        st.combined.contains(video_key(f))
    } else if v && !a {
        st.video_only.contains(video_key(f))
    } else {
        st.audio.contains(f.ext@) || st.audio.len() >= 3
    }
}

/// An accounted-for format leaves the pass unchanged.
proof fn lemma_accounted_is_dropped(st: PassState, f: FormatSource)
    requires
        accounted(st, f),
    ensures
        take_format(st, f) == st,
{
}

/// Once taken, a format is accounted for.
proof fn lemma_taken_is_accounted(st: PassState, f: FormatSource)
    ensures
        accounted(take_format(st, f), f),
{
    let n = take_format(st, f);
    let v = has_video(f);
    let a = has_audio(f);
    let d = combined_default(f);
    if !v && !a && !d {
    } else if (v && a) || d {
        if !st.combined.contains(video_key(f)) {
            assert(n.combined[st.combined.len() as int] == video_key(f));
        }
    } else if v && !a {
        if !st.video_only.contains(video_key(f)) {
            assert(n.video_only[st.video_only.len() as int] == video_key(f));
        }
    } else {
        if !(st.audio.contains(f.ext@) || st.audio.len() >= 3) {
            assert(n.audio[st.audio.len() as int] == f.ext@);
        }
    }
}

/// Taking more formats keeps a format accounted for: the offered keys only grow.
proof fn lemma_accounted_stays(st: PassState, f: FormatSource, l: Seq<FormatSource>)
    requires
        accounted(st, f),
    ensures
        accounted(take_from(st, l), f),
    decreases l.len(),
{
    if l.len() > 0 {
        lemma_accounted_stays(st, f, l.drop_last());
        let m = take_from(st, l.drop_last());
        let n = take_format(m, l.last());
        if m.combined.contains(video_key(f)) {
            let k = choose|k: int| 0 <= k < m.combined.len() && m.combined[k] == video_key(f);
            assert(n.combined[k] == video_key(f));
        }
        if m.video_only.contains(video_key(f)) {
            let k = choose|k: int| 0 <= k < m.video_only.len() && m.video_only[k] == video_key(f);
            assert(n.video_only[k] == video_key(f));
        }
        if m.audio.contains(f.ext@) {
            let k = choose|k: int| 0 <= k < m.audio.len() && m.audio[k] == f.ext@;
            assert(n.audio[k] == f.ext@);
        }
    }
}

/// Every format of `s` has a place in `best_first(s)`.
proof fn lemma_best_first_has(s: Seq<FormatSource>, i: int)
    requires
        0 <= i < s.len(),
    ensures
        exists|q: int| 0 <= q < best_first(s).len() && best_first(s)[q] == s[i],
    decreases s.len(),
{
    let l = best_first(s.drop_last());
    let x = s.last();
    lemma_insert_point(l, x);
    lemma_best_first_len(s.drop_last());
    let p = insert_point(l, x);
    assert(best_first(s) == l.insert(p, x));
    if i == s.len() - 1 {
        assert(best_first(s)[p] == s[i]);
    } else {
        lemma_best_first_has(s.drop_last(), i);
        let q = choose|q: int| 0 <= q < l.len() && l[q] == s.drop_last()[i];
        if q < p {
            assert(best_first(s)[q] == l[q]);
        } else {
            assert(best_first(s)[q + 1] == l[q]);
        }
    }
}

/// Listing a format a second time changes nothing that is offered: the
/// copy sorts after the first, whose kind and key (or extension) it
/// shares, so it is dropped as a duplicate.
pub proof fn law_listing_a_format_twice_changes_nothing(s: Seq<FormatSource>, i: int)
    requires
        0 <= i < s.len(),
    ensures
        offered_formats(s.push(s[i])) == offered_formats(s),
{
    let x = s[i];
    let l = best_first(s);
    assert(s.push(x).drop_last() =~= s);
    assert(s.push(x).last() == x);
    lemma_insert_point(l, x);
    lemma_best_first_len(s);
    law_best_first_is_ordered(s);
    let p = insert_point(l, x);
    assert(best_first(s.push(x)) == l.insert(p, x));
    lemma_best_first_has(s, i);
    let q = choose|q: int| 0 <= q < l.len() && l[q] == x;
    assert(q < p) by {
        if p <= q {
            if p == q {
                assert(ranks_below(l[p], x));
            } else {
                assert(ranks_below(l[p], x));
                assert(!ranks_below(l[p], l[q]));
            }
        }
    }
    let a = l.take(p);
    let b = l.skip(p);
    assert(l.insert(p, x) =~= a + seq![x] + b);
    assert(l =~= a + b);
    // the pass over the part before the copy accounts for it
    let a1 = a.take(q + 1);
    let a2 = a.skip(q + 1);
    assert(a =~= a1 + a2);
    assert(a1.drop_last() =~= a.take(q));
    assert(a1.last() == x);
    let st1 = take_from(empty_pass(), a1);
    lemma_taken_is_accounted(take_from(empty_pass(), a1.drop_last()), x);
    lemma_accounted_stays(st1, x, a2);
    lemma_take_from_concat(empty_pass(), a1, a2);
    let sa = take_from(empty_pass(), a);
    assert(accounted(sa, x));
    lemma_accounted_is_dropped(sa, x);
    // so the copy is dropped and the rest is the same pass
    lemma_take_from_concat(empty_pass(), a + seq![x], b);
    lemma_take_from_concat(empty_pass(), a, seq![x]);
    assert(seq![x].drop_last() =~= Seq::<FormatSource>::empty());
    assert(take_from(sa, seq![x]) == take_format(take_from(sa, Seq::<FormatSource>::empty()), x));
    lemma_take_from_concat(empty_pass(), a, b);
    lemma_take_all_is_take_from(l.insert(p, x));
    lemma_take_all_is_take_from(l);
    assert(take_all(best_first(s.push(x))) == take_all(l));
}


// ---------------------------------------------------------------------
// Colours
// ---------------------------------------------------------------------

/// A colour is read only from exactly six hexadecimal digits (`0-9`,
/// `a-f`, `A-F`) after the leading `#`s, and then its bytes are the three
/// pairs of digits, high digit first.
pub proof fn law_colour_is_six_hex_digits(hex: Seq<char>)
    ensures
        crate::theme::hex_rgb(hex) matches Some((r, g, b)) ==> {
            let h = crate::theme::hex_digits(hex);
            &&& h.len() == 6
            &&& forall|k: int| 0 <= k < 6 ==> is_hex_digit(#[trigger] h[k])
            &&& r == digit_of(h[0]) * 16 + digit_of(h[1])
            &&& g == digit_of(h[2]) * 16 + digit_of(h[3])
            &&& b == digit_of(h[4]) * 16 + digit_of(h[5])
        },
{
    if let Some((r, g, b)) = crate::theme::hex_rgb(hex) {
        let h = crate::theme::hex_digits(hex);
        assert(crate::theme::hex_pair(h[0], h[1]) is Some);
        assert(crate::theme::hex_pair(h[2], h[3]) is Some);
        assert(crate::theme::hex_pair(h[4], h[5]) is Some);
        assert forall|k: int| 0 <= k < 6 implies is_hex_digit(#[trigger] h[k]) by {
            assert(crate::theme::hex_value(h[k]) is Some) by {
                if k == 0 || k == 1 {
                } else if k == 2 || k == 3 {
                } else {
                }
            }
        }
    }
}

/// A hexadecimal digit: `0`-`9`, `a`-`f` or `A`-`F`.
pub open spec fn is_hex_digit(c: char) -> bool {
    let u = c as u32;
    (48 <= u <= 57) || (97 <= u <= 102) || (65 <= u <= 70)
}

/// The value of a hexadecimal digit character.
pub open spec fn digit_of(c: char) -> int {
    let u = c as u32;
    if 48 <= u <= 57 {
        u - 48
    } else if 97 <= u <= 102 {
        u - 87
    } else {
        u - 55
    }
}

} // verus!
