//! The mutation engine: a single controller owns the inventory, the
//! selection and the append-only command log, and drives every mutating
//! operation as a small protocol. A `request_*` call decides what outside
//! work is due and hands the caller plain values (paths, a generation
//! command); the caller performs the file, subprocess, trash or clipboard
//! work and reports the outcome to the matching `resume_*` / `finish_*`
//! call, which updates the inventory, the selection and the log.
//!
//! Exactly one input mode is active at a time; the mode enum carries the
//! create form's state so no impossible flag combination exists.

use vstd::prelude::*;
use vstd::string::StrSliceExecFns;
use vstd::string::StringExecFns;

use crate::agent::any_line_contains;
use crate::agent::listing_shows;
use crate::agent::probe_loaded;
use crate::agent::result_view;
use crate::entry::KeyEntryView;
use crate::store::is_private_name;
use crate::store::scan_describes;
use crate::store::KeyStore;
use crate::text::dec_digit;
use crate::text::dec_seq;
use crate::text::ends_with;
use crate::text::lemma_dec_seq_last;
use crate::text::pop_char;
use crate::text::pub_suffix;
use crate::text::push_char;
use crate::text::star_seq;
use crate::text::stars;
use crate::text::trim;
use crate::text::trim_spec;
use crate::text::u64_to_dec;

verus! {

// ---------------------------------------------------------------------------
// key type and bit-length choices of the create form
// ---------------------------------------------------------------------------

pub const KEY_TYPE_COUNT: usize = 4;

pub const BITS_COUNT: usize = 3;

pub const FORM_FIELD_COUNT: usize = 6;

pub const BINDING_COUNT: usize = 5;

/// The label of the key type at a form index.
pub open spec fn type_label(i: int) -> Seq<char> {
    if i == 0 {
        "rsa"@
    } else if i == 1 {
        "dsa"@
    } else if i == 2 {
        "ecdsa"@
    } else {
        "ed25519"@
    }
}

/// The label of the bit-length choice at a form index.
pub open spec fn bits_label(i: int) -> Seq<char> {
    if i == 0 {
        "1024"@
    } else if i == 1 {
        "2048"@
    } else {
        "4096"@
    }
}

pub fn type_label_string(i: usize) -> (r: String)
    requires
        i < KEY_TYPE_COUNT,
    ensures
        r@ == type_label(i as int),
{
    if i == 0 {
        String::from_str("rsa")
    } else if i == 1 {
        String::from_str("dsa")
    } else if i == 2 {
        String::from_str("ecdsa")
    } else {
        String::from_str("ed25519")
    }
}

pub fn bits_label_string(i: usize) -> (r: String)
    requires
        i < BITS_COUNT,
    ensures
        r@ == bits_label(i as int),
{
    if i == 0 {
        String::from_str("1024")
    } else if i == 1 {
        String::from_str("2048")
    } else {
        String::from_str("4096")
    }
}

// ---------------------------------------------------------------------------
// the create form
// ---------------------------------------------------------------------------

/// The editable state of the key-creation form. Field indices: 0 name,
/// 1 type choice, 2 bit-length choice, 3 passphrase, 4 its confirmation,
/// 5 comment.
pub struct FormState {
    pub field: usize,
    pub name: String,
    pub passphrase: String,
    pub confirm_passphrase: String,
    pub comment: String,
    pub type_index: usize,
    pub bits_index: usize,
}

impl FormState {
    pub open spec fn wf(self) -> bool {
        self.field < FORM_FIELD_COUNT && self.type_index < KEY_TYPE_COUNT && self.bits_index
            < BITS_COUNT
    }

    /// All text fields of the two forms agree.
    pub open spec fn same_texts(self, other: FormState) -> bool {
        &&& self.name@ == other.name@
        &&& self.passphrase@ == other.passphrase@
        &&& self.confirm_passphrase@ == other.confirm_passphrase@
        &&& self.comment@ == other.comment@
    }

    /// The selectors of the two forms agree.
    pub open spec fn same_choices(self, other: FormState) -> bool {
        self.type_index == other.type_index && self.bits_index == other.bits_index
    }

    pub fn new() -> (f: FormState)
        ensures
            f.wf(),
            f.field == 0,
            f.name@ == Seq::<char>::empty(),
            f.passphrase@ == Seq::<char>::empty(),
            f.confirm_passphrase@ == Seq::<char>::empty(),
            f.comment@ == Seq::<char>::empty(),
            f.type_index == 0,
            f.bits_index == 1,
    {
        FormState {
            field: 0,
            name: String::new(),
            passphrase: String::new(),
            confirm_passphrase: String::new(),
            comment: String::new(),
            type_index: 0,
            bits_index: 1,
        }
    }

    /// Moves to the next form field, wrapping at the end.
    pub fn next_field(&mut self)
        requires
            old(self).wf(),
        ensures
            final(self).wf(),
            final(self).field == (old(self).field + 1) % (FORM_FIELD_COUNT as int),
            final(self).same_texts(*old(self)),
            final(self).same_choices(*old(self)),
    {
        self.field = (self.field + 1) % FORM_FIELD_COUNT;
    }

    /// Moves to the previous form field, wrapping at the start.
    pub fn previous_field(&mut self)
        requires
            old(self).wf(),
        ensures
            final(self).wf(),
            old(self).field == 0 ==> final(self).field == FORM_FIELD_COUNT - 1,
            old(self).field > 0 ==> final(self).field == old(self).field - 1,
            final(self).same_texts(*old(self)),
            final(self).same_choices(*old(self)),
    {
        if self.field == 0 {
            self.field = FORM_FIELD_COUNT - 1;
        } else {
            self.field = self.field - 1;
        }
    }

    /// Appends a typed character to the selected text field; the choice
    /// fields ignore typed characters.
    pub fn input_char(&mut self, c: char)
        requires
            old(self).wf(),
        ensures
            final(self).wf(),
            final(self).field == old(self).field,
            final(self).same_choices(*old(self)),
            final(self).name@ == if old(self).field == 0 {
                old(self).name@.push(c)
            } else {
                old(self).name@
            },
            final(self).passphrase@ == if old(self).field == 3 {
                old(self).passphrase@.push(c)
            } else {
                old(self).passphrase@
            },
            final(self).confirm_passphrase@ == if old(self).field == 4 {
                old(self).confirm_passphrase@.push(c)
            } else {
                old(self).confirm_passphrase@
            },
            final(self).comment@ == if old(self).field == 5 {
                old(self).comment@.push(c)
            } else {
                old(self).comment@
            },
    {
        if self.field == 0 {
            push_char(&mut self.name, c);
        } else if self.field == 3 {
            push_char(&mut self.passphrase, c);
        } else if self.field == 4 {
            push_char(&mut self.confirm_passphrase, c);
        } else if self.field == 5 {
            push_char(&mut self.comment, c);
        }
    }

    /// Removes the last character of the selected text field, if any.
    pub fn backspace(&mut self)
        requires
            old(self).wf(),
        ensures
            final(self).wf(),
            final(self).field == old(self).field,
            final(self).same_choices(*old(self)),
            final(self).name@ == if old(self).field == 0 && old(self).name@.len() > 0 {
                old(self).name@.drop_last()
            } else {
                old(self).name@
            },
            final(self).passphrase@ == if old(self).field == 3 && old(self).passphrase@.len() > 0 {
                old(self).passphrase@.drop_last()
            } else {
                old(self).passphrase@
            },
            final(self).confirm_passphrase@ == if old(self).field == 4 && old(self).confirm_passphrase@.len() > 0 {
                old(self).confirm_passphrase@.drop_last()
            } else {
                old(self).confirm_passphrase@
            },
            final(self).comment@ == if old(self).field == 5 && old(self).comment@.len() > 0 {
                old(self).comment@.drop_last()
            } else {
                old(self).comment@
            },
    {
        if self.field == 0 {
            pop_char(&mut self.name);
        } else if self.field == 3 {
            pop_char(&mut self.passphrase);
        } else if self.field == 4 {
            pop_char(&mut self.confirm_passphrase);
        } else if self.field == 5 {
            pop_char(&mut self.comment);
        }
    }

    /// Empties the selected text field.
    pub fn clear_field(&mut self)
        requires
            old(self).wf(),
        ensures
            final(self).wf(),
            final(self).field == old(self).field,
            final(self).same_choices(*old(self)),
            final(self).name@ == if old(self).field == 0 {
                Seq::<char>::empty()
            } else {
                old(self).name@
            },
            final(self).passphrase@ == if old(self).field == 3 {
                Seq::<char>::empty()
            } else {
                old(self).passphrase@
            },
            final(self).confirm_passphrase@ == if old(self).field == 4 {
                Seq::<char>::empty()
            } else {
                old(self).confirm_passphrase@
            },
            final(self).comment@ == if old(self).field == 5 {
                Seq::<char>::empty()
            } else {
                old(self).comment@
            },
    {
        if self.field == 0 {
            self.name = String::new();
        } else if self.field == 3 {
            self.passphrase = String::new();
        } else if self.field == 4 {
            self.confirm_passphrase = String::new();
        } else if self.field == 5 {
            self.comment = String::new();
        }
    }

    /// Steps the selected choice field backwards, wrapping. Text fields
    /// ignore it.
    pub fn option_up(&mut self)
        requires
            old(self).wf(),
        ensures
            final(self).wf(),
            final(self).field == old(self).field,
            final(self).same_texts(*old(self)),
            final(self).type_index == if old(self).field == 1 {
                if old(self).type_index == 0 {
                    (KEY_TYPE_COUNT - 1) as int
                } else {
                    old(self).type_index - 1
                }
            } else {
                old(self).type_index as int
            },
            final(self).bits_index == if old(self).field == 2 {
                if old(self).bits_index == 0 {
                    (BITS_COUNT - 1) as int
                } else {
                    old(self).bits_index - 1
                }
            } else {
                old(self).bits_index as int
            },
    {
        if self.field == 1 {
            if self.type_index == 0 {
                self.type_index = KEY_TYPE_COUNT - 1;
            } else {
                self.type_index = self.type_index - 1;
            }
        } else if self.field == 2 {
            if self.bits_index == 0 {
                self.bits_index = BITS_COUNT - 1;
            } else {
                self.bits_index = self.bits_index - 1;
            }
        }
    }

    /// Steps the selected choice field forwards, wrapping.
    pub fn option_down(&mut self)
        requires
            old(self).wf(),
        ensures
            final(self).wf(),
            final(self).field == old(self).field,
            final(self).same_texts(*old(self)),
            final(self).type_index == if old(self).field == 1 {
                if old(self).type_index == KEY_TYPE_COUNT - 1 {
                    0int
                } else {
                    old(self).type_index + 1
                }
            } else {
                old(self).type_index as int
            },
            final(self).bits_index == if old(self).field == 2 {
                if old(self).bits_index == BITS_COUNT - 1 {
                    0int
                } else {
                    old(self).bits_index + 1
                }
            } else {
                old(self).bits_index as int
            },
    {
        if self.field == 1 {
            if self.type_index == KEY_TYPE_COUNT - 1 {
                self.type_index = 0;
            } else {
                self.type_index = self.type_index + 1;
            }
        } else if self.field == 2 {
            if self.bits_index == BITS_COUNT - 1 {
                self.bits_index = 0;
            } else {
                self.bits_index = self.bits_index + 1;
            }
        }
    }
}

// ---------------------------------------------------------------------------
// log messages
// ---------------------------------------------------------------------------

pub open spec fn msg_passphrase_mismatch() -> Seq<char> {
    "Passphrases do not match"@
}

pub open spec fn msg_cannot_add(label: Seq<char>) -> Seq<char> {
    "Cannot add: "@ + label + " is not a private key file of an SSH pair"@
}

pub open spec fn msg_cannot_remove(label: Seq<char>) -> Seq<char> {
    "Cannot remove: "@ + label + " is not a private key file of an SSH pair"@
}

pub open spec fn msg_cannot_copy(label: Seq<char>) -> Seq<char> {
    "Cannot copy: "@ + label + " is not a public key file of an SSH pair"@
}

pub open spec fn msg_already_added(path: Seq<char>) -> Seq<char> {
    "ssh-add "@ + path + " -> SSH key is already added to agent"@
}

pub open spec fn msg_added(path: Seq<char>) -> Seq<char> {
    "ssh-add "@ + path + " -> SSH key added to agent"@
}

pub open spec fn msg_add_failed(path: Seq<char>, err: Seq<char>) -> Seq<char> {
    "ssh-add "@ + path + " -> Failed to add SSH key to agent: "@ + err
}

pub open spec fn msg_not_loaded(path: Seq<char>) -> Seq<char> {
    "ssh-add -d "@ + path + " -> SSH key is not added to agent"@
}

pub open spec fn msg_removed(path: Seq<char>) -> Seq<char> {
    "ssh-add -d "@ + path + " -> SSH key removed from agent"@
}

pub open spec fn msg_remove_failed(path: Seq<char>, err: Seq<char>) -> Seq<char> {
    "ssh-add -d "@ + path + " -> Failed to remove SSH key from agent: "@ + err
}

pub open spec fn msg_trashed(path: Seq<char>) -> Seq<char> {
    "Move to trash: "@ + path + " -> SSH key moved to trash"@
}

pub open spec fn msg_trash_failed(path: Seq<char>) -> Seq<char> {
    "Move to trash: "@ + path + " -> Failed to move SSH key to trash"@
}

pub open spec fn msg_copied(path: Seq<char>) -> Seq<char> {
    "Copy to clipboard: "@ + path + " -> SSH public key copied to clipboard"@
}

pub open spec fn msg_copy_failed(err: Seq<char>) -> Seq<char> {
    "Failed to copy SSH public key: "@ + err
}

pub open spec fn msg_created(path: Seq<char>) -> Seq<char> {
    "SSH key created: "@ + path
}

pub open spec fn msg_create_failed(err: Seq<char>) -> Seq<char> {
    "Failed to create SSH key: "@ + err
}

/// The redacted invocation line: the passphrase appears only as a run of
/// asterisks of its length, never verbatim.
pub open spec fn msg_create_invocation(
    ktype: Seq<char>,
    bits: Seq<char>,
    path: Seq<char>,
    passphrase_len: int,
    comment: Seq<char>,
) -> Seq<char> {
    "ssh-keygen -t "@ + ktype + " -b "@ + bits + " -f "@ + path + " -N "@ + star_seq(
        passphrase_len,
    ) + " -C "@ + comment
}

// ---------------------------------------------------------------------------
// string builders
// ---------------------------------------------------------------------------

/// The full path of a file inside the key directory.
pub open spec fn path_in(dir: Seq<char>, name: Seq<char>) -> Seq<char> {
    dir + seq!['/'] + name
}

pub fn join_path(dir: &str, name: &str) -> (r: String)
    ensures
        r@ == path_in(dir@, name@),
{
    proof {
        reveal_strlit("/");
    }
    let mut r = String::from_str(dir);
    r.append("/");
    r.append(name);
    proof {
        assert("/"@ =~= seq!['/']);
        assert(r@ =~= dir@ + seq!['/'] + name@);
    }
    r
}

fn join3(a: &str, b: &str, c: &str) -> (r: String)
    ensures
        r@ == a@ + b@ + c@,
{
    let mut r = String::from_str(a);
    r.append(b);
    r.append(c);
    proof {
        assert(r@ =~= a@ + b@ + c@);
    }
    r
}

fn join4(a: &str, b: &str, c: &str, d: &str) -> (r: String)
    ensures
        r@ == a@ + b@ + c@ + d@,
{
    let mut r = String::from_str(a);
    r.append(b);
    r.append(c);
    r.append(d);
    proof {
        assert(r@ =~= a@ + b@ + c@ + d@);
    }
    r
}

// ---------------------------------------------------------------------------
// modes and commands
// ---------------------------------------------------------------------------

/// The active input mode. Exactly one is active; entering any non-browsing
/// mode suppresses normal navigation.
pub enum Mode {
    Browsing,
    ConfirmingDelete,
    CreatingKey { form: FormState },
    ShowingBindings { selected: usize },
}

/// Everything the caller needs to run the key-generation service once:
/// the structured arguments and the pre-built, passphrase-redacted log
/// line for the invocation.
pub struct CreateCommand {
    pub key_type: String,
    pub bits: String,
    pub file_path: String,
    pub passphrase: String,
    pub comment: String,
    pub description: String,
}

/// The up to three paths a recoverable delete tries, in order.
pub struct DeleteTargets {
    pub private_path: String,
    pub public_path: String,
    pub literal_path: String,
}

/// How a clipboard copy ended.
pub enum CopyOutcome {
    Copied,
    ReadFailed(String),
    ClipboardFailed(String),
}

/// The default name of an unnamed key: the type and the creation time
/// stamp it. Two creations within one second can still collide; this is a
/// known limit, not guarded against.
pub open spec fn default_key_name(tlabel: Seq<char>, now: u64) -> Seq<char> {
    "id_"@ + tlabel + "_"@ + dec_seq(now as int)
}

/// The file name a create request uses: the trimmed typed name, or the
/// default when the typed name is blank.
pub open spec fn effective_key_name(form: FormState, now: u64) -> Seq<char> {
    if trim_spec(form.name@).len() == 0 {
        default_key_name(type_label(form.type_index as int), now)
    } else {
        trim_spec(form.name@)
    }
}

/// The exact content of a generation command built from a form.
pub open spec fn create_command_describes(
    form: FormState,
    dir: Seq<char>,
    now: u64,
    c: CreateCommand,
) -> bool {
    &&& c.key_type@ == type_label(form.type_index as int)
    &&& c.bits@ == bits_label(form.bits_index as int)
    &&& c.file_path@ == path_in(dir, effective_key_name(form, now))
    &&& c.passphrase@ == form.passphrase@
    &&& c.comment@ == form.comment@
    &&& c.description@ == msg_create_invocation(
        type_label(form.type_index as int),
        bits_label(form.bits_index as int),
        path_in(dir, effective_key_name(form, now)),
        form.passphrase@.len() as int,
        form.comment@,
    )
}

/// The paths a delete of this entry tries.
pub open spec fn delete_targets_describe(e: KeyEntryView, dir: Seq<char>, t: DeleteTargets) -> bool {
    &&& t.private_path@ == path_in(dir, e.base_name)
    &&& t.public_path@ == path_in(dir, e.base_name + pub_suffix())
    &&& t.literal_path@ == path_in(dir, e.label())
}

/// The selection after removing index `i` from an inventory of `old_len`
/// entries: gone when nothing is left, one step back when the last entry
/// was removed, unchanged otherwise (now naming the next entry).
pub open spec fn post_delete_selection(old_len: int, i: int) -> Option<usize> {
    if old_len <= 1 {
        None
    } else if i == old_len - 1 {
        Some((i - 1) as usize)
    } else {
        Some(i as usize)
    }
}

/// Whether an add request must go on to call the agent: only when the
/// fingerprint came back and the probe shows the key absent.
pub open spec fn add_decision(
    fp: Result<Seq<char>, Seq<char>>,
    listing: Result<Seq<char>, Seq<char>>,
) -> bool {
    match fp {
        Ok(f) => !probe_loaded(f, listing),
        Err(_) => false,
    }
}

/// Whether a remove request must go on to call the agent: only when the
/// fingerprint came back and the probe shows the key loaded.
pub open spec fn remove_decision(
    fp: Result<Seq<char>, Seq<char>>,
    listing: Result<Seq<char>, Seq<char>>,
) -> bool {
    match fp {
        Ok(f) => probe_loaded(f, listing),
        Err(_) => false,
    }
}

// ---------------------------------------------------------------------------
// small exec helpers
// ---------------------------------------------------------------------------

fn push_log(log: &mut Vec<String>, s: String)
    ensures
        final(log).deep_view() == old(log).deep_view().push(s@),
{
    let ghost oldv = log.deep_view();
    let ghost sv = s@;
    log.push(s);
    proof {
        assert(log.deep_view() =~= oldv.push(sv));
    }
}

// ---------------------------------------------------------------------------
// the controller
// ---------------------------------------------------------------------------

/// Owns the inventory, the single selection, the active mode and the
/// append-only command log. Every mutating operation goes through it; the
/// log gains one line per outwardly observable outcome and is never
/// truncated.
pub struct InventoryController {
    pub store: KeyStore,
    pub selection: Option<usize>,
    pub mode: Mode,
    pub log: Vec<String>,
}

impl InventoryController {
    /// The selection names a real entry, or nothing when the inventory is
    /// empty; whatever mode-carried state exists is well formed.
    pub open spec fn wf(self) -> bool {
        &&& match self.selection {
            Some(i) => i < self.store@.len(),
            None => self.store@.len() == 0,
        }
        &&& match self.mode {
            Mode::CreatingKey { form } => form.wf(),
            Mode::ShowingBindings { selected } => selected < BINDING_COUNT,
            _ => true,
        }
    }

    pub fn new(store: KeyStore) -> (c: InventoryController)
        ensures
            c.wf(),
            c.store@ == store@,
            store@.len() == 0 ==> c.selection is None,
            store@.len() > 0 ==> c.selection == Some(0usize),
            c.mode is Browsing,
            c.log.deep_view() == Seq::<Seq<char>>::empty(),
    {
        let selection = if store.is_empty() {
            None
        } else {
            Some(0)
        };
        let c = InventoryController { store, selection, mode: Mode::Browsing, log: Vec::new() };
        proof {
            assert(c.log.deep_view() =~= Seq::<Seq<char>>::empty());
        }
        c
    }

    // -- navigation ---------------------------------------------------------

    /// Moves the selection one entry down, staying on the last entry.
    pub fn select_next(&mut self)
        requires
            old(self).wf(),
        ensures
            final(self).wf(),
            final(self).store == old(self).store,
            final(self).mode == old(self).mode,
            final(self).log == old(self).log,
            old(self).selection is None ==> final(self).selection is None,
            old(self).selection matches Some(i) ==> final(self).selection == Some(
                if i + 1 < old(self).store@.len() {
                    (i + 1) as usize
                } else {
                    i
                },
            ),
    {
        match self.selection {
            Some(i) => {
                if i < self.store.len() - 1 {
                    self.selection = Some(i + 1);
                }
            },
            None => {},
        }
    }

    /// Moves the selection one entry up, staying on the first entry.
    pub fn select_previous(&mut self)
        requires
            old(self).wf(),
        ensures
            final(self).wf(),
            final(self).store == old(self).store,
            final(self).mode == old(self).mode,
            final(self).log == old(self).log,
            old(self).selection is None ==> final(self).selection is None,
            old(self).selection matches Some(i) ==> final(self).selection == Some(
                if i > 0 {
                    (i - 1) as usize
                } else {
                    0usize
                },
            ),
    {
        match self.selection {
            Some(i) => {
                if i > 0 {
                    self.selection = Some(i - 1);
                }
            },
            None => {},
        }
    }

    // -- mode transitions ---------------------------------------------------

    /// Opens the delete confirmation, or closes it back to browsing.
    pub fn toggle_confirm_delete(&mut self)
        requires
            old(self).wf(),
        ensures
            final(self).wf(),
            final(self).store == old(self).store,
            final(self).selection == old(self).selection,
            final(self).log == old(self).log,
            old(self).mode is ConfirmingDelete ==> final(self).mode is Browsing,
            !(old(self).mode is ConfirmingDelete) ==> final(self).mode is ConfirmingDelete,
    {
        match &self.mode {
            Mode::ConfirmingDelete => {
                self.mode = Mode::Browsing;
            },
            _ => {
                self.mode = Mode::ConfirmingDelete;
            },
        }
    }

    /// Opens the create form with fresh fields, or closes it back to
    /// browsing.
    pub fn toggle_create_form(&mut self)
        requires
            old(self).wf(),
        ensures
            final(self).wf(),
            final(self).store == old(self).store,
            final(self).selection == old(self).selection,
            final(self).log == old(self).log,
            old(self).mode is CreatingKey ==> final(self).mode is Browsing,
            !(old(self).mode is CreatingKey) ==> (final(self).mode matches Mode::CreatingKey {
                form,
            } && form.field == 0 && form.name@ == Seq::<char>::empty() && form.passphrase@
                == Seq::<char>::empty() && form.confirm_passphrase@ == Seq::<char>::empty()
                && form.comment@ == Seq::<char>::empty() && form.type_index == 0 && form.bits_index
                == 1),
    {
        match &self.mode {
            Mode::CreatingKey { .. } => {
                self.mode = Mode::Browsing;
            },
            _ => {
                self.mode = Mode::CreatingKey { form: FormState::new() };
            },
        }
    }

    /// Opens the key-binding list, or closes it back to browsing.
    pub fn toggle_bindings(&mut self)
        requires
            old(self).wf(),
        ensures
            final(self).wf(),
            final(self).store == old(self).store,
            final(self).selection == old(self).selection,
            final(self).log == old(self).log,
            old(self).mode is ShowingBindings ==> final(self).mode is Browsing,
            !(old(self).mode is ShowingBindings) ==> final(self).mode == (Mode::ShowingBindings {
                selected: 0usize,
            }),
    {
        match &self.mode {
            Mode::ShowingBindings { .. } => {
                self.mode = Mode::Browsing;
            },
            _ => {
                self.mode = Mode::ShowingBindings { selected: 0 };
            },
        }
    }

    /// Moves the key-binding selection down, wrapping.
    pub fn bindings_next(&mut self)
        requires
            old(self).wf(),
            old(self).mode is ShowingBindings,
        ensures
            final(self).wf(),
            final(self).store == old(self).store,
            final(self).selection == old(self).selection,
            final(self).log == old(self).log,
            final(self).mode == (Mode::ShowingBindings {
                selected: (if old(self).mode->selected == BINDING_COUNT - 1 {
                    0int
                } else {
                    old(self).mode->selected + 1
                }) as usize,
            }),
    {
        match &self.mode {
            Mode::ShowingBindings { selected } => {
                let s = *selected;
                if s == BINDING_COUNT - 1 {
                    self.mode = Mode::ShowingBindings { selected: 0 };
                } else {
                    self.mode = Mode::ShowingBindings { selected: s + 1 };
                }
            },
            _ => {},
        }
    }

    /// Moves the key-binding selection up, wrapping.
    pub fn bindings_previous(&mut self)
        requires
            old(self).wf(),
            old(self).mode is ShowingBindings,
        ensures
            final(self).wf(),
            final(self).store == old(self).store,
            final(self).selection == old(self).selection,
            final(self).log == old(self).log,
            final(self).mode == (Mode::ShowingBindings {
                selected: (if old(self).mode->selected == 0 {
                    (BINDING_COUNT - 1) as int
                } else {
                    old(self).mode->selected - 1
                }) as usize,
            }),
    {
        match &self.mode {
            Mode::ShowingBindings { selected } => {
                let s = *selected;
                if s == 0 {
                    self.mode = Mode::ShowingBindings { selected: BINDING_COUNT - 1 };
                } else {
                    self.mode = Mode::ShowingBindings { selected: s - 1 };
                }
            },
            _ => {},
        }
    }

    /// Mutable access to the open create form; the caller's edits become
    /// the form carried by the mode.
    pub fn form_mut(&mut self) -> (f: &mut FormState)
        requires
            old(self).wf(),
            old(self).mode is CreatingKey,
        ensures
            *f == old(self).mode->form,
            final(self).mode matches Mode::CreatingKey { form } && form == *final(f),
            final(self).store == old(self).store,
            final(self).selection == old(self).selection,
            final(self).log == old(self).log,
            final(f).wf() ==> final(self).wf(),
    {
        match &mut self.mode {
            Mode::CreatingKey { form } => form,
            _ => vstd::pervasive::unreached(),
        }
    }

    // -- creating a key -----------------------------------------------------

    /// Validates the open form and builds the generation command. A
    /// passphrase that does not match its confirmation fails here, is
    /// logged, and no command is produced, so the generation service is
    /// never reached; the form stays open. Otherwise the command carries
    /// the effective file name and a description whose passphrase is
    /// redacted.
    pub fn request_create(&mut self, dir: &str, now: u64) -> (cmd: Option<CreateCommand>)
        requires
            old(self).wf(),
            old(self).mode is CreatingKey,
        ensures
            final(self).wf(),
            final(self).store == old(self).store,
            final(self).selection == old(self).selection,
            final(self).mode == old(self).mode,
            ({
                let form = old(self).mode->form;
                if form.passphrase@ != form.confirm_passphrase@ {
                    cmd is None && final(self).log.deep_view() == old(self).log.deep_view().push(
                        msg_passphrase_mismatch(),
                    )
                } else {
                    final(self).log == old(self).log && (cmd matches Some(c)
                        && create_command_describes(form, dir@, now, c))
                }
            }),
    {
        let pass_ok = match &self.mode {
            Mode::CreatingKey { form } => form.passphrase == form.confirm_passphrase,
            _ => vstd::pervasive::unreached(),
        };
        if !pass_ok {
            push_log(&mut self.log, String::from_str("Passphrases do not match"));
            return None;
        }
        match &self.mode {
            Mode::CreatingKey { form } => {
                let trimmed = trim(form.name.as_str());
                let ktype = type_label_string(form.type_index);
                let bits = bits_label_string(form.bits_index);
                let name = if trimmed.as_str().unicode_len() == 0 {
                    let dec = u64_to_dec(now);
                    let mut nm = String::from_str("id_");
                    nm.append(ktype.as_str());
                    nm.append("_");
                    nm.append(dec.as_str());
                    proof {
                        assert(nm@ =~= default_key_name(
                            type_label(form.type_index as int),
                            now,
                        ));
                    }
                    nm
                } else {
                    trimmed
                };
                let file_path = join_path(dir, name.as_str());
                let masked = stars(form.passphrase.as_str().unicode_len());
                let mut d = String::from_str("ssh-keygen -t ");
                d.append(ktype.as_str());
                d.append(" -b ");
                d.append(bits.as_str());
                d.append(" -f ");
                d.append(file_path.as_str());
                d.append(" -N ");
                d.append(masked.as_str());
                d.append(" -C ");
                d.append(form.comment.as_str());
                proof {
                    assert(d@ =~= msg_create_invocation(
                        type_label(form.type_index as int),
                        bits_label(form.bits_index as int),
                        path_in(dir@, effective_key_name(old(self).mode->form, now)),
                        form.passphrase@.len() as int,
                        form.comment@,
                    ));
                }
                Some(
                    CreateCommand {
                        key_type: ktype,
                        bits,
                        file_path,
                        passphrase: form.passphrase.clone(),
                        comment: form.comment.clone(),
                        description: d,
                    },
                )
            },
            _ => vstd::pervasive::unreached(),
        }
    }

    /// Records a successful generation: the invocation line and the
    /// success line go to the log, the inventory is rebuilt from the fresh
    /// listing, the selection returns to the top and the form closes.
    pub fn finish_create_ok(&mut self, cmd: &CreateCommand, files: &Vec<String>)
        requires
            old(self).wf(),
        ensures
            final(self).wf(),
            scan_describes(files.deep_view(), final(self).store@),
            final(self).store@.len() == 0 ==> final(self).selection is None,
            final(self).store@.len() > 0 ==> final(self).selection == Some(0usize),
            final(self).mode is Browsing,
            final(self).log.deep_view() == old(self).log.deep_view().push(cmd.description@).push(
                msg_created(cmd.file_path@),
            ),
    {
        self.store = KeyStore::from_listing(files);
        self.selection = if self.store.is_empty() {
            None
        } else {
            Some(0)
        };
        self.mode = Mode::Browsing;
        push_log(&mut self.log, cmd.description.clone());
        let mut m = String::from_str("SSH key created: ");
        m.append(cmd.file_path.as_str());
        push_log(&mut self.log, m);
    }

    /// Records a failed generation: the invocation line and the service's
    /// own words go to the log; nothing is rescanned and the form stays
    /// open so the user may retry.
    pub fn finish_create_err(&mut self, cmd: &CreateCommand, stderr: &str)
        requires
            old(self).wf(),
        ensures
            final(self).wf(),
            final(self).store == old(self).store,
            final(self).selection == old(self).selection,
            final(self).mode == old(self).mode,
            final(self).log.deep_view() == old(self).log.deep_view().push(cmd.description@).push(
                msg_create_failed(stderr@),
            ),
    {
        push_log(&mut self.log, cmd.description.clone());
        let mut m = String::from_str("Failed to create SSH key: ");
        m.append(stderr);
        push_log(&mut self.log, m);
    }

    // -- deleting an entry --------------------------------------------------

    /// Confirms the pending delete: hands back the paths to move to the
    /// trash, or closes the confirmation when nothing is selected. No
    /// state changes until the outcome arrives.
    pub fn request_delete(&mut self, dir: &str) -> (t: Option<DeleteTargets>)
        requires
            old(self).wf(),
            old(self).mode is ConfirmingDelete,
        ensures
            final(self).wf(),
            final(self).store == old(self).store,
            final(self).selection == old(self).selection,
            final(self).log == old(self).log,
            old(self).selection is None ==> (t is None && final(self).mode is Browsing),
            old(self).selection matches Some(i) ==> (final(self).mode == old(self).mode && (
            t matches Some(dt) && delete_targets_describe(old(self).store@[i as int], dir@, dt))),
    {
        match self.selection {
            None => {
                self.mode = Mode::Browsing;
                None
            },
            Some(i) => {
                let e = self.store.get(i);
                let pn = e.private_file_name();
                let un = e.public_file_name();
                let ln = e.file_label();
                Some(
                    DeleteTargets {
                        private_path: join_path(dir, pn.as_str()),
                        public_path: join_path(dir, un.as_str()),
                        literal_path: join_path(dir, ln.as_str()),
                    },
                )
            },
        }
    }

    /// Applies the outcome of the trash calls. Success of either half
    /// removes the entry and adjusts the selection; when both failed but
    /// the literal file went, the same; when everything failed, only a
    /// failure line is logged and the inventory keeps its last known good
    /// state. The confirmation closes either way.
    pub fn finish_delete(&mut self, t: &DeleteTargets, private_ok: bool, public_ok: bool, literal_ok: bool)
        requires
            old(self).wf(),
            old(self).selection is Some,
        ensures
            final(self).wf(),
            final(self).mode is Browsing,
            ({
                let i = old(self).selection->0 as int;
                let n = old(self).store@.len() as int;
                if private_ok || public_ok {
                    &&& final(self).store@ == old(self).store@.remove(i)
                    &&& final(self).selection == post_delete_selection(n, i)
                    &&& final(self).log.deep_view() == old(self).log.deep_view().push(
                        msg_trashed(t.private_path@),
                    )
                } else if literal_ok {
                    &&& final(self).store@ == old(self).store@.remove(i)
                    &&& final(self).selection == post_delete_selection(n, i)
                    &&& final(self).log.deep_view() == old(self).log.deep_view().push(
                        msg_trashed(t.literal_path@),
                    )
                } else {
                    &&& final(self).store == old(self).store
                    &&& final(self).selection == old(self).selection
                    &&& final(self).log.deep_view() == old(self).log.deep_view().push(
                        msg_trash_failed(t.literal_path@),
                    )
                }
            }),
    {
        let i = match self.selection {
            Some(i) => i,
            None => vstd::pervasive::unreached(),
        };
        if private_ok || public_ok {
            self.store.remove(i);
            let n = self.store.len();
            self.selection = if n == 0 {
                None
            } else if i >= n {
                Some(n - 1)
            } else {
                Some(i)
            };
            let mut m = String::from_str("Move to trash: ");
            m.append(t.private_path.as_str());
            m.append(" -> SSH key moved to trash");
            proof {
                assert(m@ =~= msg_trashed(t.private_path@));
            }
            push_log(&mut self.log, m);
        } else if literal_ok {
            self.store.remove(i);
            let n = self.store.len();
            self.selection = if n == 0 {
                None
            } else if i >= n {
                Some(n - 1)
            } else {
                Some(i)
            };
            let mut m = String::from_str("Move to trash: ");
            m.append(t.literal_path.as_str());
            m.append(" -> SSH key moved to trash");
            proof {
                assert(m@ =~= msg_trashed(t.literal_path@));
            }
            push_log(&mut self.log, m);
        } else {
            let mut m = String::from_str("Move to trash: ");
            m.append(t.literal_path.as_str());
            m.append(" -> Failed to move SSH key to trash");
            proof {
                assert(m@ =~= msg_trash_failed(t.literal_path@));
            }
            push_log(&mut self.log, m);
        }
        self.mode = Mode::Browsing;
    }

    // -- adding to the agent ------------------------------------------------

    /// Starts an add: for a selected pair, hands back the private file's
    /// path so the caller can fingerprint it and list the agent; anything
    /// else is refused with a log line and no agent work.
    pub fn request_add(&mut self, dir: &str) -> (p: Option<String>)
        requires
            old(self).wf(),
        ensures
            final(self).wf(),
            final(self).store == old(self).store,
            final(self).selection == old(self).selection,
            final(self).mode == old(self).mode,
            old(self).selection is None ==> (p is None && final(self).log == old(self).log),
            old(self).selection matches Some(i) ==> ({
                let e = old(self).store@[i as int];
                if e.is_pair() {
                    (p matches Some(path) && path@ == path_in(dir@, e.base_name)) && final(self).log == old(self).log
                } else {
                    p is None && final(self).log.deep_view() == old(self).log.deep_view().push(
                        msg_cannot_add(e.label()),
                    )
                }
            }),
    {
        match self.selection {
            None => None,
            Some(i) => {
                let e = self.store.get(i);
                if e.is_pair() {
                    let pn = e.private_file_name();
                    Some(join_path(dir, pn.as_str()))
                } else {
                    let label = e.file_label();
                    let mut m = String::from_str("Cannot add: ");
                    m.append(label.as_str());
                    m.append(" is not a private key file of an SSH pair");
                    proof {
                        assert(m@ =~= msg_cannot_add(old(self).store@[i as int].label()));
                    }
                    push_log(&mut self.log, m);
                    None
                }
            },
        }
    }

    /// Decides an add from the probes: a failed fingerprint is logged and
    /// stops; a fingerprint already in the agent logs the idempotent
    /// "already added" line and stops; only an absent fingerprint asks the
    /// caller to run the load, so no pair is ever loaded twice in a row.
    pub fn resume_add(
        &mut self,
        path: &str,
        fp_result: &Result<String, String>,
        listing_result: &Result<String, String>,
    ) -> (go: bool)
        requires
            old(self).wf(),
        ensures
            final(self).wf(),
            final(self).store == old(self).store,
            final(self).selection == old(self).selection,
            final(self).mode == old(self).mode,
            go == add_decision(result_view(*fp_result), result_view(*listing_result)),
            fp_result matches Err(e) ==> final(self).log.deep_view() == old(self).log.deep_view().push(e@),
            (fp_result matches Ok(f) && probe_loaded(f@, result_view(*listing_result))) ==> final(self).log.deep_view() == old(self).log.deep_view().push(msg_already_added(path@)),
            (fp_result matches Ok(f) && !probe_loaded(f@, result_view(*listing_result))) ==> final(self).log == old(self).log,
    {
        match fp_result {
            Err(e) => {
                push_log(&mut self.log, e.clone());
                false
            },
            Ok(f) => {
                let loaded = match listing_result {
                    Ok(text) => any_line_contains(text.as_str(), f.as_str()),
                    Err(_) => false,
                };
                if loaded {
                    let mut m = String::from_str("ssh-add ");
                    m.append(path);
                    m.append(" -> SSH key is already added to agent");
                    proof {
                        assert(m@ =~= msg_already_added(path@));
                    }
                    push_log(&mut self.log, m);
                    false
                } else {
                    true
                }
            },
        }
    }

    /// Records the agent's answer to a load.
    pub fn finish_add(&mut self, path: &str, outcome: &Result<(), String>)
        requires
            old(self).wf(),
        ensures
            final(self).wf(),
            final(self).store == old(self).store,
            final(self).selection == old(self).selection,
            final(self).mode == old(self).mode,
            outcome is Ok ==> final(self).log.deep_view() == old(self).log.deep_view().push(
                msg_added(path@),
            ),
            outcome matches Err(e) ==> final(self).log.deep_view() == old(self).log.deep_view().push(msg_add_failed(path@, e@)),
    {
        match outcome {
            Ok(_) => {
                let mut m = String::from_str("ssh-add ");
                m.append(path);
                m.append(" -> SSH key added to agent");
                proof {
                    assert(m@ =~= msg_added(path@));
                }
                push_log(&mut self.log, m);
            },
            Err(e) => {
                let mut m = String::from_str("ssh-add ");
                m.append(path);
                m.append(" -> Failed to add SSH key to agent: ");
                m.append(e.as_str());
                proof {
                    assert(m@ =~= msg_add_failed(path@, e@));
                }
                push_log(&mut self.log, m);
            },
        }
    }

    // -- removing from the agent --------------------------------------------

    /// Starts a remove: the mirror image of [`Self::request_add`].
    pub fn request_remove(&mut self, dir: &str) -> (p: Option<String>)
        requires
            old(self).wf(),
        ensures
            final(self).wf(),
            final(self).store == old(self).store,
            final(self).selection == old(self).selection,
            final(self).mode == old(self).mode,
            old(self).selection is None ==> (p is None && final(self).log == old(self).log),
            old(self).selection matches Some(i) ==> ({
                let e = old(self).store@[i as int];
                if e.is_pair() {
                    (p matches Some(path) && path@ == path_in(dir@, e.base_name)) && final(self).log == old(self).log
                } else {
                    p is None && final(self).log.deep_view() == old(self).log.deep_view().push(
                        msg_cannot_remove(e.label()),
                    )
                }
            }),
    {
        match self.selection {
            None => None,
            Some(i) => {
                let e = self.store.get(i);
                if e.is_pair() {
                    let pn = e.private_file_name();
                    Some(join_path(dir, pn.as_str()))
                } else {
                    let label = e.file_label();
                    let mut m = String::from_str("Cannot remove: ");
                    m.append(label.as_str());
                    m.append(" is not a private key file of an SSH pair");
                    proof {
                        assert(m@ =~= msg_cannot_remove(old(self).store@[i as int].label()));
                    }
                    push_log(&mut self.log, m);
                    None
                }
            },
        }
    }

    /// Decides a remove from the probes: a failed fingerprint is logged
    /// and stops; a fingerprint the agent does not hold logs the "not
    /// added" line and stops; only a loaded fingerprint asks the caller to
    /// run the unload.
    pub fn resume_remove(
        &mut self,
        path: &str,
        fp_result: &Result<String, String>,
        listing_result: &Result<String, String>,
    ) -> (go: bool)
        requires
            old(self).wf(),
        ensures
            final(self).wf(),
            final(self).store == old(self).store,
            final(self).selection == old(self).selection,
            final(self).mode == old(self).mode,
            go == remove_decision(result_view(*fp_result), result_view(*listing_result)),
            fp_result matches Err(e) ==> final(self).log.deep_view() == old(self).log.deep_view().push(e@),
            (fp_result matches Ok(f) && !probe_loaded(f@, result_view(*listing_result))) ==> final(self).log.deep_view() == old(self).log.deep_view().push(msg_not_loaded(path@)),
            (fp_result matches Ok(f) && probe_loaded(f@, result_view(*listing_result))) ==> final(self).log == old(self).log,
    {
        match fp_result {
            Err(e) => {
                push_log(&mut self.log, e.clone());
                false
            },
            Ok(f) => {
                let loaded = match listing_result {
                    Ok(text) => any_line_contains(text.as_str(), f.as_str()),
                    Err(_) => false,
                };
                if !loaded {
                    let mut m = String::from_str("ssh-add -d ");
                    m.append(path);
                    m.append(" -> SSH key is not added to agent");
                    proof {
                        assert(m@ =~= msg_not_loaded(path@));
                    }
                    push_log(&mut self.log, m);
                    false
                } else {
                    true
                }
            },
        }
    }

    /// Records the agent's answer to an unload.
    pub fn finish_remove(&mut self, path: &str, outcome: &Result<(), String>)
        requires
            old(self).wf(),
        ensures
            final(self).wf(),
            final(self).store == old(self).store,
            final(self).selection == old(self).selection,
            final(self).mode == old(self).mode,
            outcome is Ok ==> final(self).log.deep_view() == old(self).log.deep_view().push(
                msg_removed(path@),
            ),
            outcome matches Err(e) ==> final(self).log.deep_view() == old(self).log.deep_view().push(msg_remove_failed(path@, e@)),
    {
        match outcome {
            Ok(_) => {
                let mut m = String::from_str("ssh-add -d ");
                m.append(path);
                m.append(" -> SSH key removed from agent");
                proof {
                    assert(m@ =~= msg_removed(path@));
                }
                push_log(&mut self.log, m);
            },
            Err(e) => {
                let mut m = String::from_str("ssh-add -d ");
                m.append(path);
                m.append(" -> Failed to remove SSH key from agent: ");
                m.append(e.as_str());
                proof {
                    assert(m@ =~= msg_remove_failed(path@, e@));
                }
                push_log(&mut self.log, m);
            },
        }
    }

    // -- copying the public key ---------------------------------------------

    /// Starts a copy: for a selected pair, hands back the public file's
    /// path to read; anything else is refused with a log line.
    pub fn request_copy(&mut self, dir: &str) -> (p: Option<String>)
        requires
            old(self).wf(),
        ensures
            final(self).wf(),
            final(self).store == old(self).store,
            final(self).selection == old(self).selection,
            final(self).mode == old(self).mode,
            old(self).selection is None ==> (p is None && final(self).log == old(self).log),
            old(self).selection matches Some(i) ==> ({
                let e = old(self).store@[i as int];
                if e.is_pair() {
                    (p matches Some(path) && path@ == path_in(dir@, e.base_name + pub_suffix()))
                        && final(self).log == old(self).log
                } else {
                    p is None && final(self).log.deep_view() == old(self).log.deep_view().push(
                        msg_cannot_copy(e.label()),
                    )
                }
            }),
    {
        match self.selection {
            None => None,
            Some(i) => {
                let e = self.store.get(i);
                if e.is_pair() {
                    let un = e.public_file_name();
                    Some(join_path(dir, un.as_str()))
                } else {
                    let label = e.file_label();
                    let mut m = String::from_str("Cannot copy: ");
                    m.append(label.as_str());
                    m.append(" is not a public key file of an SSH pair");
                    proof {
                        assert(m@ =~= msg_cannot_copy(old(self).store@[i as int].label()));
                    }
                    push_log(&mut self.log, m);
                    None
                }
            },
        }
    }

    /// Records how the read and the clipboard hand-off went; a failure of
    /// either is only a log line, never a crash.
    pub fn finish_copy(&mut self, path: &str, outcome: &CopyOutcome)
        requires
            old(self).wf(),
        ensures
            final(self).wf(),
            final(self).store == old(self).store,
            final(self).selection == old(self).selection,
            final(self).mode == old(self).mode,
            outcome is Copied ==> final(self).log.deep_view() == old(self).log.deep_view().push(
                msg_copied(path@),
            ),
            outcome matches CopyOutcome::ReadFailed(e) ==> final(self).log.deep_view() == old(self).log.deep_view().push(msg_copy_failed(e@)),
            outcome matches CopyOutcome::ClipboardFailed(e) ==> final(self).log.deep_view() == old(self).log.deep_view().push(msg_copy_failed(e@)),
    {
        match outcome {
            CopyOutcome::Copied => {
                let mut m = String::from_str("Copy to clipboard: ");
                m.append(path);
                m.append(" -> SSH public key copied to clipboard");
                proof {
                    assert(m@ =~= msg_copied(path@));
                }
                push_log(&mut self.log, m);
            },
            CopyOutcome::ReadFailed(e) => {
                let mut m = String::from_str("Failed to copy SSH public key: ");
                m.append(e.as_str());
                push_log(&mut self.log, m);
            },
            CopyOutcome::ClipboardFailed(e) => {
                let mut m = String::from_str("Failed to copy SSH public key: ");
                m.append(e.as_str());
                push_log(&mut self.log, m);
            },
        }
    }
}

// ---------------------------------------------------------------------------
// laws
// ---------------------------------------------------------------------------

/// Law: adding the same unloaded pair twice in a row loads it exactly
/// once. The first probe finds the fingerprint absent, so the decision is
/// to load; once the agent lists the fingerprint, the second probe's
/// decision is not to load, at which point
/// [`InventoryController::resume_add`] appends the "already added" line
/// instead of asking for a second load.
pub proof fn lemma_add_to_agent_idempotent(
    fp: Seq<char>,
    first_listing: Result<Seq<char>, Seq<char>>,
    second_listing: Seq<char>,
)
    requires
        !probe_loaded(fp, first_listing),
        listing_shows(second_listing, fp),
    ensures
        add_decision(Ok(fp), first_listing) == true,
        add_decision(Ok(fp), Ok(second_listing)) == false,
{
}

/// Law: the default name of an unnamed key is a non-empty private-shaped
/// name - it ends in a decimal digit, never in the public suffix - so the
/// two files a successful create writes always scan as one pair.
pub proof fn lemma_default_name_is_private(tlabel: Seq<char>, now: u64)
    ensures
        default_key_name(tlabel, now).len() > 0,
        is_private_name(default_key_name(tlabel, now)),
{
    lemma_dec_seq_last(now as int);
    let name = default_key_name(tlabel, now);
    let dec = dec_seq(now as int);
    assert(name[name.len() - 1] == dec[dec.len() - 1]);
    if ends_with(name, pub_suffix()) {
        assert(name.subrange(name.len() - 4, name.len() as int)[3] == name[name.len() - 1]);
        assert(pub_suffix()[3] == 'b');
        assert(dec_digit((now as int) % 10) != 'b');
        assert(false);
    }
}

} // verus!
