//! A logical SSH key as the inventory sees it: a base name together with
//! flags saying which halves of the pair exist on disk. A file whose name
//! fits neither half of the `<name>` / `<name>.pub` convention becomes a
//! standalone entry with both flags false.

use vstd::prelude::*;
use vstd::string::StringExecFns;

use crate::text::pub_suffix;

verus! {

/// Ghost image of a `KeyEntry`.
pub struct KeyEntryView {
    pub base_name: Seq<char>,
    pub has_private: bool,
    pub has_public: bool,
}

impl KeyEntryView {
    /// Both halves exist on disk: the entry is an actionable key pair.
    pub open spec fn is_pair(self) -> bool {
        self.has_private && self.has_public
    }

    /// The name of the one file this entry stands for when it is not a
    /// pair: the public file for a public-only entry, the file itself
    /// otherwise.
    pub open spec fn label(self) -> Seq<char> {
        if self.has_public && !self.has_private {
            self.base_name + pub_suffix()
        } else {
            self.base_name
        }
    }

    /// Display group: pairs first, private-only, public-only, the rest.
    pub open spec fn group_rank(self) -> int {
        if self.has_private && self.has_public {
            0
        } else if self.has_private {
            1
        } else if self.has_public {
            2
        } else {
            3
        }
    }
}

pub struct KeyEntry {
    pub base_name: String,
    pub has_private: bool,
    pub has_public: bool,
}

impl View for KeyEntry {
    type V = KeyEntryView;

    open spec fn view(&self) -> KeyEntryView {
        KeyEntryView {
            base_name: self.base_name@,
            has_private: self.has_private,
            has_public: self.has_public,
        }
    }
}

impl KeyEntry {
    pub fn new(base_name: String, has_private: bool, has_public: bool) -> (e: KeyEntry)
        ensures
            e@ == (KeyEntryView { base_name: base_name@, has_private, has_public }),
    {
        KeyEntry { base_name, has_private, has_public }
    }

    pub fn is_pair(&self) -> (r: bool)
        ensures
            r == self@.is_pair(),
    {
        self.has_private && self.has_public
    }

    /// The private half's file name.
    pub fn private_file_name(&self) -> (r: String)
        ensures
            r@ == self@.base_name,
    {
        self.base_name.clone()
    }

    /// The public half's file name: the base name with the public suffix.
    pub fn public_file_name(&self) -> (r: String)
        ensures
            r@ == self@.base_name + pub_suffix(),
    {
        proof {
            reveal_strlit(".pub");
            assert(".pub"@ =~= pub_suffix());
        }
        let mut r = self.base_name.clone();
        r.append(".pub");
        r
    }

    /// The file name shown for a non-pair entry, see [`KeyEntryView::label`].
    pub fn file_label(&self) -> (r: String)
        ensures
            r@ == self@.label(),
    {
        if self.has_public && !self.has_private {
            self.public_file_name()
        } else {
            self.base_name.clone()
        }
    }

    /// The file whose text is shown for this entry: the public half when it
    /// exists, the entry's own file otherwise.
    pub fn content_file_name(&self) -> (r: String)
        ensures
            self@.has_public ==> r@ == self@.base_name + pub_suffix(),
            !self@.has_public ==> r@ == self@.base_name,
    {
        if self.has_public {
            self.public_file_name()
        } else {
            self.base_name.clone()
        }
    }
}

} // verus!
