//! The key inventory: a directory listing is classified into key entries,
//! one per distinct base name, ordered pairs first, private-only and
//! public-only halves next, unrecognised files last.
//!
//! A file name that does not end in the public suffix counts as a private
//! half under its own name. One that ends in the suffix exactly once, with
//! a non-empty remainder, counts as the public half of that remainder. A
//! name that ends in the suffix but strips to nothing or to another
//! suffixed name fits neither half and becomes a standalone entry.

use vstd::prelude::*;
use vstd::string::StrSliceExecFns;
use vstd::string::StringExecFns;

use crate::entry::KeyEntry;
use crate::entry::KeyEntryView;
use crate::text::ends_with;
use crate::text::pub_suffix;
use crate::text::str_ends_with_pub;
use crate::text::str_eq;
use crate::text::strip_pub;

verus! {

// ---------------------------------------------------------------------------
// classification of single file names
// ---------------------------------------------------------------------------

/// A name without the public suffix: the private half of a key, or any
/// other plain file.
pub open spec fn is_private_name(f: Seq<char>) -> bool {
    !ends_with(f, pub_suffix())
}

/// The name with the public suffix removed.
pub open spec fn pub_base(f: Seq<char>) -> Seq<char> {
    f.subrange(0, f.len() - 4)
}

/// A well-formed public half: the suffix follows a non-empty base that is
/// itself a private-shaped name.
pub open spec fn is_public_name(f: Seq<char>) -> bool {
    &&& ends_with(f, pub_suffix())
    &&& f.len() > 4
    &&& is_private_name(pub_base(f))
}

/// Ends in the suffix but is not a well-formed public half.
pub open spec fn is_odd_name(f: Seq<char>) -> bool {
    ends_with(f, pub_suffix()) && !is_public_name(f)
}

/// The base name a file contributes to the inventory, ignoring the suffix.
pub open spec fn base_of(f: Seq<char>) -> Seq<char> {
    if is_public_name(f) {
        pub_base(f)
    } else {
        f
    }
}

// ---------------------------------------------------------------------------
// what a listing holds
// ---------------------------------------------------------------------------

pub open spec fn listing_has_private(files: Seq<Seq<char>>, b: Seq<char>) -> bool {
    is_private_name(b) && files.contains(b)
}

pub open spec fn listing_has_public(files: Seq<Seq<char>>, b: Seq<char>) -> bool {
    exists|i: int|
        0 <= i < files.len() && is_public_name(#[trigger] files[i]) && pub_base(files[i]) == b
}

pub open spec fn listing_has_odd(files: Seq<Seq<char>>, f: Seq<char>) -> bool {
    is_odd_name(f) && files.contains(f)
}

/// Some file of the listing contributes this base name.
pub open spec fn base_appears(files: Seq<Seq<char>>, b: Seq<char>) -> bool {
    listing_has_private(files, b) || listing_has_public(files, b) || listing_has_odd(files, b)
}

/// The one entry a base name gets: its flags record which halves the
/// listing holds for it.
pub open spec fn entry_for(files: Seq<Seq<char>>, b: Seq<char>) -> KeyEntryView {
    KeyEntryView {
        base_name: b,
        has_private: listing_has_private(files, b),
        has_public: listing_has_public(files, b),
    }
}

pub open spec fn inventory_has_base(inv: Seq<KeyEntryView>, b: Seq<char>) -> bool {
    exists|j: int| 0 <= j < inv.len() && #[trigger] inv[j].base_name == b
}

/// The full scan contract: the inventory holds exactly one correctly
/// flagged entry per base name of the listing, no base twice, groups in
/// display order. The union of the entries' base names equals the base
/// names of all files, so the four groups partition the listing.
pub open spec fn scan_describes(files: Seq<Seq<char>>, inv: Seq<KeyEntryView>) -> bool {
    &&& forall|j: int| 0 <= j < inv.len() ==> #[trigger] inv[j] == entry_for(files, inv[j].base_name)
    &&& forall|j: int| 0 <= j < inv.len() ==> base_appears(files, #[trigger] inv[j].base_name)
    &&& forall|b: Seq<char>| #[trigger] base_appears(files, b) ==> inventory_has_base(inv, b)
    &&& forall|j: int, k: int|
        0 <= j < k < inv.len() ==> #[trigger] inv[j].base_name != #[trigger] inv[k].base_name
    &&& forall|j: int, k: int|
        0 <= j < k < inv.len() ==> #[trigger] inv[j].group_rank() <= #[trigger] inv[k].group_rank()
}

// ---------------------------------------------------------------------------
// exec helpers
// ---------------------------------------------------------------------------

/// Whether some element of the vector spells this text.
fn vec_contains_str(v: &Vec<String>, s: &str) -> (r: bool)
    ensures
        r == v.deep_view().contains(s@),
{
    let mut i: usize = 0;
    while i < v.len()
        invariant
            i <= v.len(),
            forall|j: int| 0 <= j < i ==> v.deep_view()[j] != s@,
        decreases v.len() - i,
    {
        if str_eq(v[i].as_str(), s) {
            assert(v.deep_view()[i as int] == s@);
            return true;
        }
        i = i + 1;
    }
    false
}

/// Whether this file name is a well-formed public half.
fn is_public_file_name(f: &str) -> (r: bool)
    ensures
        r == is_public_name(f@),
{
    if !str_ends_with_pub(f) {
        return false;
    }
    let n = f.unicode_len();
    if n <= 4 {
        proof {
            assert(pub_suffix().len() == 4);
        }
        return false;
    }
    let base = strip_pub(f);
    let r = !str_ends_with_pub(base.as_str());
    proof {
        assert(base@ == pub_base(f@));
    }
    r
}

// ---------------------------------------------------------------------------
// collection passes
// ---------------------------------------------------------------------------

/// All distinct private-shaped names of the listing, in first appearance
/// order.
fn collect_privates(files: &Vec<String>) -> (v: Vec<String>)
    ensures
        forall|j: int|
            0 <= j < v.deep_view().len() ==> listing_has_private(
                files.deep_view(),
                #[trigger] v.deep_view()[j],
            ),
        forall|b: Seq<char>|
            #[trigger] listing_has_private(files.deep_view(), b) ==> v.deep_view().contains(b),
        forall|j: int, k: int|
            0 <= j < k < v.deep_view().len() ==> v.deep_view()[j] != v.deep_view()[k],
{
    let ghost fs = files.deep_view();
    let mut v: Vec<String> = Vec::new();
    let mut i: usize = 0;
    while i < files.len()
        invariant
            i <= files.len(),
            fs == files.deep_view(),
            forall|j: int|
                0 <= j < v.deep_view().len() ==> listing_has_private(
                    fs,
                    #[trigger] v.deep_view()[j],
                ),
            forall|b: Seq<char>|
                #[trigger] listing_has_private(fs.take(i as int), b) ==> v.deep_view().contains(b),
            forall|j: int, k: int|
                0 <= j < k < v.deep_view().len() ==> v.deep_view()[j] != v.deep_view()[k],
        decreases files.len() - i,
    {
        let ghost old_v = v.deep_view();
        let f = &files[i];
        assert(fs[i as int] == f@);
        if !str_ends_with_pub(f.as_str()) {
            if !vec_contains_str(&v, f.as_str()) {
                v.push(f.clone());
                assert(v.deep_view() =~= old_v.push(f@));
            }
            assert(fs.contains(f@)) by {
                assert(fs[i as int] == f@);
            }
            assert(v.deep_view().contains(f@)) by {
                if old_v.contains(f@) {
                    let j = choose|j: int| 0 <= j < old_v.len() && old_v[j] == f@;
                    assert(v.deep_view()[j] == f@);
                } else {
                    assert(v.deep_view()[v.deep_view().len() - 1] == f@);
                }
            }
        }
        i = i + 1;
        proof {
            assert forall|b: Seq<char>|
                #[trigger] listing_has_private(fs.take(i as int), b) implies v.deep_view().contains(
                b,
            ) by {
                let idx = choose|idx: int|
                    0 <= idx < fs.take(i as int).len() && fs.take(i as int)[idx] == b;
                if idx < i - 1 {
                    assert(fs.take(i - 1)[idx] == b);
                    assert(listing_has_private(fs.take(i - 1), b));
                    let j = choose|j: int| 0 <= j < old_v.len() && old_v[j] == b;
                    assert(v.deep_view()[j] == b);
                } else {
                    assert(b == fs[i - 1]);
                }
            }
        }
    }
    proof {
        assert(fs.take(files.len() as int) =~= fs);
    }
    v
}

/// All distinct bases of well-formed public halves, in first appearance
/// order.
fn collect_pub_bases(files: &Vec<String>) -> (v: Vec<String>)
    ensures
        forall|j: int|
            0 <= j < v.deep_view().len() ==> listing_has_public(
                files.deep_view(),
                #[trigger] v.deep_view()[j],
            ),
        forall|b: Seq<char>|
            #[trigger] listing_has_public(files.deep_view(), b) ==> v.deep_view().contains(b),
        forall|j: int, k: int|
            0 <= j < k < v.deep_view().len() ==> v.deep_view()[j] != v.deep_view()[k],
        forall|j: int|
            0 <= j < v.deep_view().len() ==> is_private_name(#[trigger] v.deep_view()[j]),
{
    let ghost fs = files.deep_view();
    let mut v: Vec<String> = Vec::new();
    let mut i: usize = 0;
    while i < files.len()
        invariant
            i <= files.len(),
            fs == files.deep_view(),
            forall|j: int|
                0 <= j < v.deep_view().len() ==> listing_has_public(
                    fs,
                    #[trigger] v.deep_view()[j],
                ),
            forall|b: Seq<char>|
                #[trigger] listing_has_public(fs.take(i as int), b) ==> v.deep_view().contains(b),
            forall|j: int, k: int|
                0 <= j < k < v.deep_view().len() ==> v.deep_view()[j] != v.deep_view()[k],
            forall|j: int|
                0 <= j < v.deep_view().len() ==> is_private_name(#[trigger] v.deep_view()[j]),
        decreases files.len() - i,
    {
        let ghost old_v = v.deep_view();
        let f = &files[i];
        assert(fs[i as int] == f@);
        if is_public_file_name(f.as_str()) {
            let base = strip_pub(f.as_str());
            assert(base@ == pub_base(f@));
            assert(listing_has_public(fs, base@)) by {
                assert(is_public_name(fs[i as int]) && pub_base(fs[i as int]) == base@);
            }
            if !vec_contains_str(&v, base.as_str()) {
                let ghost bview = base@;
                v.push(base);
                assert(v.deep_view() =~= old_v.push(bview));
            }
            assert(v.deep_view().contains(pub_base(f@))) by {
                if old_v.contains(pub_base(f@)) {
                    let j = choose|j: int| 0 <= j < old_v.len() && old_v[j] == pub_base(f@);
                    assert(v.deep_view()[j] == pub_base(f@));
                } else {
                    assert(v.deep_view()[v.deep_view().len() - 1] == pub_base(f@));
                }
            }
        }
        i = i + 1;
        proof {
            assert forall|b: Seq<char>|
                #[trigger] listing_has_public(fs.take(i as int), b) implies v.deep_view().contains(
                b,
            ) by {
                let idx = choose|idx: int|
                    0 <= idx < fs.take(i as int).len() && is_public_name(fs.take(i as int)[idx])
                        && pub_base(fs.take(i as int)[idx]) == b;
                if idx < i - 1 {
                    assert(is_public_name(fs.take(i - 1)[idx]) && pub_base(fs.take(i - 1)[idx])
                        == b);
                    assert(listing_has_public(fs.take(i - 1), b));
                    let j = choose|j: int| 0 <= j < old_v.len() && old_v[j] == b;
                    assert(v.deep_view()[j] == b);
                } else {
                    assert(b == pub_base(fs[i - 1]));
                }
            }
        }
    }
    proof {
        assert(fs.take(files.len() as int) =~= fs);
    }
    v
}

/// All distinct suffixed names that are not well-formed public halves, in
/// first appearance order.
fn collect_odds(files: &Vec<String>) -> (v: Vec<String>)
    ensures
        forall|j: int|
            0 <= j < v.deep_view().len() ==> listing_has_odd(
                files.deep_view(),
                #[trigger] v.deep_view()[j],
            ),
        forall|b: Seq<char>|
            #[trigger] listing_has_odd(files.deep_view(), b) ==> v.deep_view().contains(b),
        forall|j: int, k: int|
            0 <= j < k < v.deep_view().len() ==> v.deep_view()[j] != v.deep_view()[k],
{
    let ghost fs = files.deep_view();
    let mut v: Vec<String> = Vec::new();
    let mut i: usize = 0;
    while i < files.len()
        invariant
            i <= files.len(),
            fs == files.deep_view(),
            forall|j: int|
                0 <= j < v.deep_view().len() ==> listing_has_odd(fs, #[trigger] v.deep_view()[j]),
            forall|b: Seq<char>|
                #[trigger] listing_has_odd(fs.take(i as int), b) ==> v.deep_view().contains(b),
            forall|j: int, k: int|
                0 <= j < k < v.deep_view().len() ==> v.deep_view()[j] != v.deep_view()[k],
        decreases files.len() - i,
    {
        let ghost old_v = v.deep_view();
        let f = &files[i];
        assert(fs[i as int] == f@);
        if str_ends_with_pub(f.as_str()) && !is_public_file_name(f.as_str()) {
            if !vec_contains_str(&v, f.as_str()) {
                v.push(f.clone());
                assert(v.deep_view() =~= old_v.push(f@));
            }
            assert(fs.contains(f@)) by {
                assert(fs[i as int] == f@);
            }
            assert(v.deep_view().contains(f@)) by {
                if old_v.contains(f@) {
                    let j = choose|j: int| 0 <= j < old_v.len() && old_v[j] == f@;
                    assert(v.deep_view()[j] == f@);
                } else {
                    assert(v.deep_view()[v.deep_view().len() - 1] == f@);
                }
            }
        }
        i = i + 1;
        proof {
            assert forall|b: Seq<char>|
                #[trigger] listing_has_odd(fs.take(i as int), b) implies v.deep_view().contains(
                b,
            ) by {
                let idx = choose|idx: int|
                    0 <= idx < fs.take(i as int).len() && fs.take(i as int)[idx] == b;
                if idx < i - 1 {
                    assert(fs.take(i - 1)[idx] == b);
                    assert(listing_has_odd(fs.take(i - 1), b));
                    let j = choose|j: int| 0 <= j < old_v.len() && old_v[j] == b;
                    assert(v.deep_view()[j] == b);
                } else {
                    assert(b == fs[i - 1]);
                }
            }
        }
    }
    proof {
        assert(fs.take(files.len() as int) =~= fs);
    }
    v
}

// ---------------------------------------------------------------------------
// the store
// ---------------------------------------------------------------------------

/// The image of a sequence of entries.
pub open spec fn views_of(es: Seq<KeyEntry>) -> Seq<KeyEntryView> {
    Seq::new(es.len(), |i: int| es[i]@)
}

/// The in-memory inventory. It owns the ordered entry list; consumers read
/// it through indices and rebuild it wholesale after any mutation of the
/// directory.
pub struct KeyStore {
    pub entries: Vec<KeyEntry>,
}

impl View for KeyStore {
    type V = Seq<KeyEntryView>;

    open spec fn view(&self) -> Seq<KeyEntryView> {
        views_of(self.entries@)
    }
}

impl KeyStore {
    pub fn len(&self) -> (n: usize)
        ensures
            n == self@.len(),
    {
        self.entries.len()
    }

    pub fn is_empty(&self) -> (r: bool)
        ensures
            r == (self@.len() == 0),
    {
        self.entries.len() == 0
    }

    pub fn get(&self, i: usize) -> (e: &KeyEntry)
        requires
            i < self@.len(),
        ensures
            e@ == self@[i as int],
    {
        &self.entries[i]
    }

    /// Drops the entry at the index, keeping the order of the rest. Used
    /// only after the matching files have already left the directory.
    pub fn remove(&mut self, i: usize)
        requires
            i < old(self)@.len(),
        ensures
            final(self)@ =~= old(self)@.remove(i as int),
    {
        self.entries.remove(i);
        proof {
            assert(final(self)@ =~= old(self)@.remove(i as int));
        }
    }

    /// The single entry shown when the key directory itself is missing: a
    /// sentinel that is not a pair, so every mutation politely refuses it.
    pub fn missing_directory() -> (s: KeyStore)
        ensures
            s@ =~= seq![
                KeyEntryView {
                    base_name: "No SSH files found"@,
                    has_private: false,
                    has_public: false,
                },
            ],
    {
        let mut entries: Vec<KeyEntry> = Vec::new();
        entries.push(KeyEntry::new(String::from_str("No SSH files found"), false, false));
        KeyStore { entries }
    }

    /// Classifies a directory listing into the ordered inventory.
    #[verifier::loop_isolation(false)]
    pub fn from_listing(files: &Vec<String>) -> (s: KeyStore)
        ensures
            scan_describes(files.deep_view(), s@),
    {
        let ghost fs = files.deep_view();
        let privs = collect_privates(files);
        let pubs = collect_pub_bases(files);
        let odds = collect_odds(files);
        let ghost pv = privs.deep_view();
        let ghost bv = pubs.deep_view();
        let ghost ov = odds.deep_view();
        let mut entries: Vec<KeyEntry> = Vec::new();

        // pairs: private names that also have a public half
        let mut i: usize = 0;
        while i < privs.len()
            invariant
                i <= privs.len(),
                fs == files.deep_view(),
                pv == privs.deep_view(),
                bv == pubs.deep_view(),
                forall|j: int|
                    0 <= j < views_of(entries@).len() ==> #[trigger] views_of(entries@)[j]
                        == entry_for(fs, views_of(entries@)[j].base_name),
                forall|j: int|
                    0 <= j < views_of(entries@).len() ==> #[trigger] views_of(
                        entries@,
                    )[j].group_rank() == 0,
                forall|j: int|
                    0 <= j < views_of(entries@).len() ==> pv.contains(
                        #[trigger] views_of(entries@)[j].base_name,
                    ),
                forall|j: int, k: int|
                    0 <= j < k < views_of(entries@).len() ==> #[trigger] views_of(
                        entries@,
                    )[j].base_name != #[trigger] views_of(entries@)[k].base_name,
                forall|j0: int|
                    0 <= j0 < i && bv.contains(#[trigger] pv[j0]) ==> inventory_has_base(
                        views_of(entries@),
                        pv[j0],
                    ),
            decreases privs.len() - i,
        {
            let ghost old_ev = views_of(entries@);
            let b = &privs[i];
            assert(pv[i as int] == b@);
            if vec_contains_str(&pubs, b.as_str()) {
                proof {
                    assert(listing_has_private(fs, b@));
                    let jb = choose|jb: int| 0 <= jb < bv.len() && bv[jb] == b@;
                    assert(listing_has_public(fs, bv[jb]));
                }
                if !vec_contains_str_entries(&entries, b.as_str()) {
                    entries.push(KeyEntry::new(b.clone(), true, true));
                    proof {
                        assert(views_of(entries@) =~= old_ev.push(
                            KeyEntryView { base_name: b@, has_private: true, has_public: true },
                        ));
                        assert(pv.contains(b@));
                    }
                }
                assert(inventory_has_base(views_of(entries@), b@)) by {
                    if inventory_has_base(old_ev, b@) {
                        let j = choose|j: int|
                            0 <= j < old_ev.len() && #[trigger] old_ev[j].base_name == b@;
                        assert(views_of(entries@)[j].base_name == b@);
                    } else {
                        assert(views_of(entries@)[views_of(entries@).len() - 1].base_name == b@);
                    }
                }
            }
            i = i + 1;
            proof {
                assert forall|j0: int|
                    0 <= j0 < i && bv.contains(#[trigger] pv[j0]) implies inventory_has_base(
                    views_of(entries@),
                    pv[j0],
                ) by {
                    if j0 < i - 1 {
                        let j = choose|j: int|
                            0 <= j < old_ev.len() && #[trigger] old_ev[j].base_name == pv[j0];
                        assert(views_of(entries@)[j].base_name == pv[j0]);
                    } else {
                        assert(inventory_has_base(views_of(entries@), pv[i - 1]));
                    }
                }
            }
        }

        // private-only names
        let mut i2: usize = 0;
        while i2 < privs.len()
            invariant
                i2 <= privs.len(),
                fs == files.deep_view(),
                pv == privs.deep_view(),
                bv == pubs.deep_view(),
                forall|j: int|
                    0 <= j < views_of(entries@).len() ==> #[trigger] views_of(entries@)[j]
                        == entry_for(fs, views_of(entries@)[j].base_name),
                forall|j: int|
                    0 <= j < views_of(entries@).len() ==> #[trigger] views_of(
                        entries@,
                    )[j].group_rank() <= 1,
                forall|j: int, k: int|
                    0 <= j < k < views_of(entries@).len() ==> #[trigger] views_of(
                        entries@,
                    )[j].group_rank() <= #[trigger] views_of(entries@)[k].group_rank(),
                forall|j: int|
                    0 <= j < views_of(entries@).len() ==> pv.contains(
                        #[trigger] views_of(entries@)[j].base_name,
                    ),
                forall|j: int, k: int|
                    0 <= j < k < views_of(entries@).len() ==> #[trigger] views_of(
                        entries@,
                    )[j].base_name != #[trigger] views_of(entries@)[k].base_name,
                forall|j0: int|
                    0 <= j0 < pv.len() && bv.contains(#[trigger] pv[j0]) ==> inventory_has_base(
                        views_of(entries@),
                        pv[j0],
                    ),
                forall|j0: int|
                    0 <= j0 < i2 && !bv.contains(#[trigger] pv[j0]) ==> inventory_has_base(
                        views_of(entries@),
                        pv[j0],
                    ),
            decreases privs.len() - i2,
        {
            let ghost old_ev = views_of(entries@);
            let b = &privs[i2];
            assert(pv[i2 as int] == b@);
            if !vec_contains_str(&pubs, b.as_str()) {
                proof {
                    assert(listing_has_private(fs, b@));
                    assert(!listing_has_public(fs, b@)) by {
                        if listing_has_public(fs, b@) {
                            assert(bv.contains(b@));
                        }
                    }
                }
                if !vec_contains_str_entries(&entries, b.as_str()) {
                    entries.push(KeyEntry::new(b.clone(), true, false));
                    proof {
                        assert(views_of(entries@) =~= old_ev.push(
                            KeyEntryView { base_name: b@, has_private: true, has_public: false },
                        ));
                        assert(pv.contains(b@));
                    }
                }
                assert(inventory_has_base(views_of(entries@), b@)) by {
                    if inventory_has_base(old_ev, b@) {
                        let j = choose|j: int|
                            0 <= j < old_ev.len() && #[trigger] old_ev[j].base_name == b@;
                        assert(views_of(entries@)[j].base_name == b@);
                    } else {
                        assert(views_of(entries@)[views_of(entries@).len() - 1].base_name == b@);
                    }
                }
            }
            i2 = i2 + 1;
            proof {
                assert forall|j0: int|
                    0 <= j0 < pv.len() && bv.contains(#[trigger] pv[j0]) implies inventory_has_base(
                    views_of(entries@),
                    pv[j0],
                ) by {
                    let j = choose|j: int|
                        0 <= j < old_ev.len() && #[trigger] old_ev[j].base_name == pv[j0];
                    assert(views_of(entries@)[j].base_name == pv[j0]);
                }
                assert forall|j0: int|
                    0 <= j0 < i2 && !bv.contains(#[trigger] pv[j0]) implies inventory_has_base(
                    views_of(entries@),
                    pv[j0],
                ) by {
                    if j0 < i2 - 1 {
                        let j = choose|j: int|
                            0 <= j < old_ev.len() && #[trigger] old_ev[j].base_name == pv[j0];
                        assert(views_of(entries@)[j].base_name == pv[j0]);
                    } else {
                        assert(inventory_has_base(views_of(entries@), pv[i2 - 1]));
                    }
                }
            }
        }

        // public-only bases
        let mut i3: usize = 0;
        while i3 < pubs.len()
            invariant
                i3 <= pubs.len(),
                fs == files.deep_view(),
                pv == privs.deep_view(),
                bv == pubs.deep_view(),
                forall|j: int|
                    0 <= j < views_of(entries@).len() ==> #[trigger] views_of(entries@)[j]
                        == entry_for(fs, views_of(entries@)[j].base_name),
                forall|j: int|
                    0 <= j < views_of(entries@).len() ==> #[trigger] views_of(
                        entries@,
                    )[j].group_rank() <= 2,
                forall|j: int, k: int|
                    0 <= j < k < views_of(entries@).len() ==> #[trigger] views_of(
                        entries@,
                    )[j].group_rank() <= #[trigger] views_of(entries@)[k].group_rank(),
                forall|j: int|
                    0 <= j < views_of(entries@).len() ==> pv.contains(
                        #[trigger] views_of(entries@)[j].base_name,
                    ) || bv.contains(views_of(entries@)[j].base_name),
                forall|j: int, k: int|
                    0 <= j < k < views_of(entries@).len() ==> #[trigger] views_of(
                        entries@,
                    )[j].base_name != #[trigger] views_of(entries@)[k].base_name,
                forall|j0: int|
                    0 <= j0 < pv.len() ==> inventory_has_base(views_of(entries@), #[trigger] pv[j0]),
                forall|j0: int|
                    0 <= j0 < i3 ==> inventory_has_base(views_of(entries@), #[trigger] bv[j0]),
            decreases pubs.len() - i3,
        {
            let ghost old_ev = views_of(entries@);
            let b = &pubs[i3];
            assert(bv[i3 as int] == b@);
            if !vec_contains_str(&privs, b.as_str()) {
                proof {
                    assert(listing_has_public(fs, bv[i3 as int]));
                    assert(!listing_has_private(fs, b@)) by {
                        if listing_has_private(fs, b@) {
                            assert(pv.contains(b@));
                        }
                    }
                }
                if !vec_contains_str_entries(&entries, b.as_str()) {
                    entries.push(KeyEntry::new(b.clone(), false, true));
                    proof {
                        assert(views_of(entries@) =~= old_ev.push(
                            KeyEntryView { base_name: b@, has_private: false, has_public: true },
                        ));
                        assert(bv.contains(b@));
                    }
                }
                assert(inventory_has_base(views_of(entries@), b@)) by {
                    if inventory_has_base(old_ev, b@) {
                        let j = choose|j: int|
                            0 <= j < old_ev.len() && #[trigger] old_ev[j].base_name == b@;
                        assert(views_of(entries@)[j].base_name == b@);
                    } else {
                        assert(views_of(entries@)[views_of(entries@).len() - 1].base_name == b@);
                    }
                }
            } else {
                proof {
                    let jp = choose|jp: int| 0 <= jp < pv.len() && pv[jp] == b@;
                    assert(inventory_has_base(views_of(entries@), pv[jp]));
                }
            }
            i3 = i3 + 1;
            proof {
                assert forall|j0: int| 0 <= j0 < pv.len() implies inventory_has_base(
                    views_of(entries@),
                    #[trigger] pv[j0],
                ) by {
                    let j = choose|j: int|
                        0 <= j < old_ev.len() && #[trigger] old_ev[j].base_name == pv[j0];
                    assert(views_of(entries@)[j].base_name == pv[j0]);
                }
                assert forall|j0: int| 0 <= j0 < i3 implies inventory_has_base(
                    views_of(entries@),
                    #[trigger] bv[j0],
                ) by {
                    if j0 < i3 - 1 {
                        let j = choose|j: int|
                            0 <= j < old_ev.len() && #[trigger] old_ev[j].base_name == bv[j0];
                        assert(views_of(entries@)[j].base_name == bv[j0]);
                    } else {
                        assert(inventory_has_base(views_of(entries@), bv[i3 - 1]));
                    }
                }
            }
        }

        // unrecognised files
        let mut i4: usize = 0;
        while i4 < odds.len()
            invariant
                i4 <= odds.len(),
                fs == files.deep_view(),
                pv == privs.deep_view(),
                bv == pubs.deep_view(),
                ov == odds.deep_view(),
                forall|j: int|
                    0 <= j < views_of(entries@).len() ==> #[trigger] views_of(entries@)[j]
                        == entry_for(fs, views_of(entries@)[j].base_name),
                forall|j: int, k: int|
                    0 <= j < k < views_of(entries@).len() ==> #[trigger] views_of(
                        entries@,
                    )[j].group_rank() <= #[trigger] views_of(entries@)[k].group_rank(),
                forall|j: int|
                    0 <= j < views_of(entries@).len() ==> pv.contains(
                        #[trigger] views_of(entries@)[j].base_name,
                    ) || bv.contains(views_of(entries@)[j].base_name) || ov.contains(
                        views_of(entries@)[j].base_name,
                    ),
                forall|j: int, k: int|
                    0 <= j < k < views_of(entries@).len() ==> #[trigger] views_of(
                        entries@,
                    )[j].base_name != #[trigger] views_of(entries@)[k].base_name,
                forall|j0: int|
                    0 <= j0 < pv.len() ==> inventory_has_base(views_of(entries@), #[trigger] pv[j0]),
                forall|j0: int|
                    0 <= j0 < bv.len() ==> inventory_has_base(views_of(entries@), #[trigger] bv[j0]),
                forall|j0: int|
                    0 <= j0 < i4 ==> inventory_has_base(views_of(entries@), #[trigger] ov[j0]),
            decreases odds.len() - i4,
        {
            let ghost old_ev = views_of(entries@);
            let f = &odds[i4];
            assert(ov[i4 as int] == f@);
            proof {
                assert(listing_has_odd(fs, f@));
                assert(!listing_has_private(fs, f@));
                assert(!listing_has_public(fs, f@)) by {
                    if listing_has_public(fs, f@) {
                        let jf = choose|jf: int|
                            0 <= jf < fs.len() && is_public_name(#[trigger] fs[jf]) && pub_base(
                                fs[jf],
                            ) == f@;
                        assert(is_private_name(pub_base(fs[jf])));
                        assert(false);
                    }
                }
            }
            if !vec_contains_str_entries(&entries, f.as_str()) {
                entries.push(KeyEntry::new(f.clone(), false, false));
                proof {
                    assert(views_of(entries@) =~= old_ev.push(
                        KeyEntryView { base_name: f@, has_private: false, has_public: false },
                    ));
                    assert(ov.contains(f@));
                    assert(views_of(entries@)[views_of(entries@).len() - 1].group_rank() == 3);
                }
            }
            assert(inventory_has_base(views_of(entries@), f@)) by {
                if inventory_has_base(old_ev, f@) {
                    let j = choose|j: int|
                        0 <= j < old_ev.len() && #[trigger] old_ev[j].base_name == f@;
                    assert(views_of(entries@)[j].base_name == f@);
                } else {
                    assert(views_of(entries@)[views_of(entries@).len() - 1].base_name == f@);
                }
            }
            i4 = i4 + 1;
            proof {
                assert forall|j0: int| 0 <= j0 < pv.len() implies inventory_has_base(
                    views_of(entries@),
                    #[trigger] pv[j0],
                ) by {
                    let j = choose|j: int|
                        0 <= j < old_ev.len() && #[trigger] old_ev[j].base_name == pv[j0];
                    assert(views_of(entries@)[j].base_name == pv[j0]);
                }
                assert forall|j0: int| 0 <= j0 < bv.len() implies inventory_has_base(
                    views_of(entries@),
                    #[trigger] bv[j0],
                ) by {
                    let j = choose|j: int|
                        0 <= j < old_ev.len() && #[trigger] old_ev[j].base_name == bv[j0];
                    assert(views_of(entries@)[j].base_name == bv[j0]);
                }
                assert forall|j0: int| 0 <= j0 < i4 implies inventory_has_base(
                    views_of(entries@),
                    #[trigger] ov[j0],
                ) by {
                    if j0 < i4 - 1 {
                        let j = choose|j: int|
                            0 <= j < old_ev.len() && #[trigger] old_ev[j].base_name == ov[j0];
                        assert(views_of(entries@)[j].base_name == ov[j0]);
                    } else {
                        assert(inventory_has_base(views_of(entries@), ov[i4 - 1]));
                    }
                }
            }
        }

        let s = KeyStore { entries };
        proof {
            assert forall|b: Seq<char>| #[trigger] base_appears(fs, b) implies inventory_has_base(
                s@,
                b,
            ) by {
                if listing_has_private(fs, b) {
                    assert(pv.contains(b));
                    let j0 = choose|j0: int| 0 <= j0 < pv.len() && pv[j0] == b;
                    assert(inventory_has_base(s@, pv[j0]));
                } else if listing_has_public(fs, b) {
                    assert(bv.contains(b));
                    let j0 = choose|j0: int| 0 <= j0 < bv.len() && bv[j0] == b;
                    assert(inventory_has_base(s@, bv[j0]));
                } else {
                    assert(ov.contains(b));
                    let j0 = choose|j0: int| 0 <= j0 < ov.len() && ov[j0] == b;
                    assert(inventory_has_base(s@, ov[j0]));
                }
            }
            assert forall|j: int| 0 <= j < s@.len() implies base_appears(
                fs,
                #[trigger] s@[j].base_name,
            ) by {
                assert(pv.contains(s@[j].base_name) || bv.contains(s@[j].base_name) || ov.contains(
                    s@[j].base_name,
                ));
                if pv.contains(s@[j].base_name) {
                    let jj = choose|jj: int| 0 <= jj < pv.len() && pv[jj] == s@[j].base_name;
                    assert(listing_has_private(fs, pv[jj]));
                } else if bv.contains(s@[j].base_name) {
                    let jj = choose|jj: int| 0 <= jj < bv.len() && bv[jj] == s@[j].base_name;
                    assert(listing_has_public(fs, bv[jj]));
                } else {
                    let jj = choose|jj: int| 0 <= jj < ov.len() && ov[jj] == s@[j].base_name;
                    assert(listing_has_odd(fs, ov[jj]));
                }
            }
        }
        s
    }
}

/// Law: a base name appears in the inventory exactly when some file of
/// the listing spells it once its suffix is ignored - the four groups
/// partition the listing's base names, none lost and none invented.
pub proof fn lemma_bases_are_file_bases(files: Seq<Seq<char>>, b: Seq<char>)
    ensures
        base_appears(files, b) <==> exists|i: int|
            0 <= i < files.len() && base_of(#[trigger] files[i]) == b,
{
    if base_appears(files, b) {
        if listing_has_private(files, b) {
            let i = choose|i: int| 0 <= i < files.len() && files[i] == b;
            assert(base_of(files[i]) == b);
        } else if listing_has_public(files, b) {
            let i = choose|i: int|
                0 <= i < files.len() && is_public_name(#[trigger] files[i]) && pub_base(files[i])
                    == b;
            assert(base_of(files[i]) == b);
        } else {
            let i = choose|i: int| 0 <= i < files.len() && files[i] == b;
            assert(base_of(files[i]) == b);
        }
    }
    if exists|i: int| 0 <= i < files.len() && base_of(#[trigger] files[i]) == b {
        let i = choose|i: int| 0 <= i < files.len() && base_of(#[trigger] files[i]) == b;
        if is_public_name(files[i]) {
            assert(listing_has_public(files, b));
        } else if is_private_name(files[i]) {
            assert(files.contains(files[i]));
            assert(listing_has_private(files, b));
        } else {
            assert(files.contains(files[i]));
            assert(listing_has_odd(files, b));
        }
    }
}

/// Law: once a create succeeds, both halves of the new pair are on disk,
/// and the next scan lists the created entry as a pair. Stated over any
/// listing that holds the private name and its suffixed public twin, for
/// any inventory the scan contract admits for that listing.
pub proof fn lemma_created_pair_scans_as_pair(
    files: Seq<Seq<char>>,
    name: Seq<char>,
    inv: Seq<KeyEntryView>,
)
    requires
        scan_describes(files, inv),
        name.len() > 0,
        is_private_name(name),
        files.contains(name),
        files.contains(name + pub_suffix()),
    ensures
        exists|j: int|
            0 <= j < inv.len() && inv[j] == (KeyEntryView {
                base_name: name,
                has_private: true,
                has_public: true,
            }),
{
    assert(listing_has_private(files, name));
    let pubfile = name + pub_suffix();
    assert(pub_suffix().len() == 4);
    assert(pubfile.subrange(pubfile.len() - 4, pubfile.len() as int) =~= pub_suffix());
    assert(pub_base(pubfile) =~= name);
    assert(is_public_name(pubfile));
    let i = choose|i: int| 0 <= i < files.len() && files[i] == pubfile;
    assert(is_public_name(files[i]) && pub_base(files[i]) == name);
    assert(listing_has_public(files, name));
    assert(base_appears(files, name));
    assert(inventory_has_base(inv, name));
    let j = choose|j: int| 0 <= j < inv.len() && #[trigger] inv[j].base_name == name;
    assert(inv[j] == entry_for(files, name));
}

/// Whether some entry of the vector carries this base name.
fn vec_contains_str_entries(v: &Vec<KeyEntry>, s: &str) -> (r: bool)
    ensures
        r == inventory_has_base(views_of(v@), s@),
{
    let mut i: usize = 0;
    while i < v.len()
        invariant
            i <= v.len(),
            forall|j: int| 0 <= j < i ==> #[trigger] views_of(v@)[j].base_name != s@,
        decreases v.len() - i,
    {
        if str_eq(v[i].base_name.as_str(), s) {
            assert(views_of(v@)[i as int].base_name == s@);
            return true;
        }
        i = i + 1;
    }
    false
}

} // verus!
