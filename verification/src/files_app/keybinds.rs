//! Keyboard shortcuts: bindings from key and modifiers to actions.
use vstd::prelude::*;
use crate::text::{all_ascii, ascii_lower, chars_of, eq_ignore_ascii_case, eq_ignore_ascii_case_exec, to_lowercase, unicode_lowercase};

verus! {

/// Modifier key flags for keyboard shortcuts.
#[derive(Debug, Clone, Copy, PartialEq, Eq, Structural, Hash)]
pub struct KeyModifier {
    pub ctrl: bool,
    pub alt: bool,
    pub shift: bool,
    pub meta: bool,
}

impl KeyModifier {
    /// No modifier held.
    pub fn none() -> (r: Self)
        ensures
            r == (KeyModifier { ctrl: false, alt: false, shift: false, meta: false }),
    {
        KeyModifier { ctrl: false, alt: false, shift: false, meta: false }
    }

    /// Only Ctrl held.
    pub fn ctrl() -> (r: Self)
        ensures
            r == (KeyModifier { ctrl: true, alt: false, shift: false, meta: false }),
    {
        KeyModifier { ctrl: true, alt: false, shift: false, meta: false }
    }

    /// Only Alt held.
    pub fn alt() -> (r: Self)
        ensures
            r == (KeyModifier { ctrl: false, alt: true, shift: false, meta: false }),
    {
        KeyModifier { ctrl: false, alt: true, shift: false, meta: false }
    }

    /// Only Shift held.
    pub fn shift() -> (r: Self)
        ensures
            r == (KeyModifier { ctrl: false, alt: false, shift: true, meta: false }),
    {
        KeyModifier { ctrl: false, alt: false, shift: true, meta: false }
    }

    /// Only Meta held.
    pub fn meta() -> (r: Self)
        ensures
            r == (KeyModifier { ctrl: false, alt: false, shift: false, meta: true }),
    {
        KeyModifier { ctrl: false, alt: false, shift: false, meta: true }
    }

    /// Creates a new modifier set.
    pub fn new(ctrl: bool, alt: bool, shift: bool, meta: bool) -> (r: Self)
        ensures
            r == (KeyModifier { ctrl, alt, shift, meta }),
    {
        KeyModifier { ctrl, alt, shift, meta }
    }
}

impl Default for KeyModifier {
    fn default() -> (r: Self)
        ensures
            r == (KeyModifier { ctrl: false, alt: false, shift: false, meta: false }),
    {
        KeyModifier { ctrl: false, alt: false, shift: false, meta: false }
    }
}

/// System and navigation actions triggered by keyboard shortcuts.
#[derive(Debug, Clone, PartialEq, Eq, Hash)]
pub enum KeyAction {
    NewTab,
    CloseTab,
    SwitchPane,
    ToggleSelection,
    FocusOmnibar,
    NavigateParent,
    OpenItem,
    Cancel,
    Custom(String),
}

impl KeyAction {
    /// A copy of the action.
    pub fn duplicate(&self) -> (r: Self)
        ensures
            r == *self,
    {
        match self {
            KeyAction::NewTab => KeyAction::NewTab,
            KeyAction::CloseTab => KeyAction::CloseTab,
            KeyAction::SwitchPane => KeyAction::SwitchPane,
            KeyAction::ToggleSelection => KeyAction::ToggleSelection,
            KeyAction::FocusOmnibar => KeyAction::FocusOmnibar,
            KeyAction::NavigateParent => KeyAction::NavigateParent,
            KeyAction::OpenItem => KeyAction::OpenItem,
            KeyAction::Cancel => KeyAction::Cancel,
            KeyAction::Custom(s) => KeyAction::Custom(s.clone()),
        }
    }
}

/// A binding connecting a key and modifier combination to a [`KeyAction`].
#[derive(Debug, Clone, PartialEq, Eq, Hash)]
pub struct ShortcutBinding {
    pub key: String,
    pub modifier: KeyModifier,
    pub action: KeyAction,
}

/// Whether a binding answers to `key` with `modifier`.
pub open spec fn binding_matches(b: ShortcutBinding, key: Seq<char>, modifier: KeyModifier) -> bool {
    eq_ignore_ascii_case(b.key@, key) && b.modifier == modifier
}

impl ShortcutBinding {
    /// Constructs a new binding; the key is stored lowercased.
    pub fn new(key: &str, modifier: KeyModifier, action: KeyAction) -> (r: Self)
        ensures
            r.key@ == unicode_lowercase(key@),
            all_ascii(key@) ==> r.key@ == key@.map_values(|c: char| ascii_lower(c)),
            r.modifier == modifier,
            r.action == action,
    {
        ShortcutBinding { key: to_lowercase(key), modifier, action }
    }

    /// Returns `true` if the given key and modifier match this binding.
    pub fn matches(&self, key: &str, modifier: &KeyModifier) -> (r: bool)
        ensures
            r == binding_matches(*self, key@, *modifier),
    {
        let a = chars_of(self.key.as_str());
        let b = chars_of(key);
        eq_ignore_ascii_case_exec(&a, &b) && self.modifier == *modifier
    }
}

/// Index of the first binding that answers to `key` with `modifier`.
pub open spec fn first_match(bs: Seq<ShortcutBinding>, key: Seq<char>, modifier: KeyModifier) -> Option<int>
    decreases bs.len(),
{
    if bs.len() == 0 {
        None
    } else if binding_matches(bs[0], key, modifier) {
        Some(0)
    } else {
        match first_match(bs.drop_first(), key, modifier) {
            Some(i) => Some(i + 1),
            None => None,
        }
    }
}

/// The action dispatched for `key` with `modifier`.
pub open spec fn dispatched(bs: Seq<ShortcutBinding>, key: Seq<char>, modifier: KeyModifier) -> Option<KeyAction> {
    match first_match(bs, key, modifier) {
        Some(i) => Some(bs[i].action),
        None => None,
    }
}

/// The bindings that do not answer to `key` with `modifier`.
pub open spec fn without_key(bs: Seq<ShortcutBinding>, key: Seq<char>, modifier: KeyModifier) -> Seq<ShortcutBinding> {
    bs.filter(|b: ShortcutBinding| !binding_matches(b, key, modifier))
}

/// The default bindings: key, modifier and action.
pub open spec fn default_binding_table() -> Seq<(Seq<char>, KeyModifier, KeyAction)> {
    seq![
        ("t"@, KeyModifier { ctrl: true, alt: false, shift: false, meta: false }, KeyAction::NewTab),
        ("w"@, KeyModifier { ctrl: true, alt: false, shift: false, meta: false }, KeyAction::CloseTab),
        ("f6"@, KeyModifier { ctrl: false, alt: false, shift: false, meta: false }, KeyAction::SwitchPane),
        ("space"@, KeyModifier { ctrl: false, alt: false, shift: false, meta: false }, KeyAction::ToggleSelection),
        ("l"@, KeyModifier { ctrl: true, alt: false, shift: false, meta: false }, KeyAction::FocusOmnibar),
        ("backspace"@, KeyModifier { ctrl: false, alt: false, shift: false, meta: false }, KeyAction::NavigateParent),
        ("enter"@, KeyModifier { ctrl: false, alt: false, shift: false, meta: false }, KeyAction::OpenItem),
        ("esc"@, KeyModifier { ctrl: false, alt: false, shift: false, meta: false }, KeyAction::Cancel),
    ]
}

/// Whether the bindings are exactly the default table.
pub open spec fn is_default_bindings(bs: Seq<ShortcutBinding>) -> bool {
    &&& bs.len() == default_binding_table().len()
    &&& forall|i: int|
        0 <= i < bs.len() ==> (#[trigger] bs[i]).key@ == default_binding_table()[i].0
            && bs[i].modifier == default_binding_table()[i].1 && bs[i].action
            == default_binding_table()[i].2
}

/// Dispatcher and manager for application keyboard shortcuts.
#[derive(Debug, Clone)]
pub struct KeybindManager {
    bindings: Vec<ShortcutBinding>,
}

impl KeybindManager {
    /// The active bindings, in order.
    pub closed spec fn binding_list(&self) -> Seq<ShortcutBinding> {
        self.bindings@
    }

    /// Creates a new manager initialized with the default keybindings.
    pub fn new() -> (r: Self)
        ensures
            is_default_bindings(r.binding_list()),
    {
        let mut manager = KeybindManager { bindings: Vec::new() };
        manager.register_defaults();
        manager
    }

    /// Replaces the bindings with the standard dual-pane keybindings.
    pub fn register_defaults(&mut self)
        ensures
            is_default_bindings(final(self).binding_list()),
    {
        proof {
            reveal_strlit("t");
            reveal_strlit("w");
            reveal_strlit("f6");
            reveal_strlit("space");
            reveal_strlit("l");
            reveal_strlit("backspace");
            reveal_strlit("enter");
            reveal_strlit("esc");
        }
        let mut v: Vec<ShortcutBinding> = Vec::new();
        v.push(ShortcutBinding::new("t", KeyModifier::ctrl(), KeyAction::NewTab));
        v.push(ShortcutBinding::new("w", KeyModifier::ctrl(), KeyAction::CloseTab));
        v.push(ShortcutBinding::new("f6", KeyModifier::none(), KeyAction::SwitchPane));
        v.push(ShortcutBinding::new("space", KeyModifier::none(), KeyAction::ToggleSelection));
        v.push(ShortcutBinding::new("l", KeyModifier::ctrl(), KeyAction::FocusOmnibar));
        v.push(ShortcutBinding::new("backspace", KeyModifier::none(), KeyAction::NavigateParent));
        v.push(ShortcutBinding::new("enter", KeyModifier::none(), KeyAction::OpenItem));
        v.push(ShortcutBinding::new("esc", KeyModifier::none(), KeyAction::Cancel));
        assert("t"@.map_values(|c: char| ascii_lower(c)) =~= "t"@);
        assert("w"@.map_values(|c: char| ascii_lower(c)) =~= "w"@);
        assert("f6"@.map_values(|c: char| ascii_lower(c)) =~= "f6"@);
        assert("space"@.map_values(|c: char| ascii_lower(c)) =~= "space"@);
        assert("l"@.map_values(|c: char| ascii_lower(c)) =~= "l"@);
        assert("backspace"@.map_values(|c: char| ascii_lower(c)) =~= "backspace"@);
        assert("enter"@.map_values(|c: char| ascii_lower(c)) =~= "enter"@);
        assert("esc"@.map_values(|c: char| ascii_lower(c)) =~= "esc"@);
        self.bindings = v;
    }

    /// Removes every binding with the same key (ignoring ASCII case) and modifier.
    fn remove_matching(&mut self, key: &str, modifier: &KeyModifier)
        ensures
            final(self).binding_list() == without_key(old(self).binding_list(), key@, *modifier),
    {
        let ghost bs = self.bindings@;
        let mut i: usize = 0;
        let ghost mut c: int = 0;
        proof {
            reveal_with_fuel(Seq::<_>::filter, 1);
            assert(bs.take(0) =~= Seq::<ShortcutBinding>::empty());
            assert(self.bindings@.take(0) =~= Seq::<ShortcutBinding>::empty());
            assert(self.bindings@.skip(0) =~= bs);
            assert(bs.skip(0) =~= bs);
        }
        while i < self.bindings.len()
            invariant
                i <= self.bindings@.len(),
                0 <= c <= bs.len(),
                self.bindings@.take(i as int) == without_key(bs.take(c), key@, *modifier),
                self.bindings@.skip(i as int) == bs.skip(c),
            decreases self.bindings.len() - i,
        {
            let ghost cur = self.bindings@;
            assert(cur.skip(i as int).len() > 0);
            assert(bs.skip(c).len() > 0);
            assert(cur.skip(i as int)[0] == bs.skip(c)[0]);
            assert(cur.skip(i as int)[0] == bs[c]);
            assert(bs.take(c + 1) =~= bs.take(c).push(bs[c]));
            proof {
                reveal_with_fuel(Seq::<_>::filter, 1);
            }
            assert(bs.take(c + 1).drop_last() =~= bs.take(c));
            assert(bs.take(c + 1).last() == bs[c]);
            if self.bindings[i].matches(key, modifier) {
                assert(without_key(bs.take(c + 1), key@, *modifier) == without_key(bs.take(c), key@, *modifier));
                self.bindings.remove(i);
                assert(self.bindings@.take(i as int) =~= cur.take(i as int));
                assert(self.bindings@.skip(i as int) =~= cur.skip(i as int).drop_first());
            } else {
                assert(without_key(bs.take(c + 1), key@, *modifier) == without_key(bs.take(c), key@, *modifier).push(bs[c]));
                assert(cur.take(i + 1) =~= cur.take(i as int).push(cur[i as int]));
                assert(cur.skip(i + 1) =~= cur.skip(i as int).drop_first());
                i += 1;
            }
            proof {
                assert(bs.skip(c).drop_first() =~= bs.skip(c + 1));
                c = c + 1;
            }
        }
        assert(self.bindings@.skip(i as int).len() == 0);
        assert(bs.skip(c).len() == 0);
        assert(bs.take(c) =~= bs);
        assert(self.bindings@.take(i as int) =~= self.bindings@);
    }

    /// Registers a binding, replacing any with the same key and modifier.
    pub fn register(&mut self, binding: ShortcutBinding)
        ensures
            final(self).binding_list() == without_key(
                old(self).binding_list(),
                binding.key@,
                binding.modifier,
            ).push(binding),
    {
        let key = binding.key.clone();
        self.remove_matching(key.as_str(), &binding.modifier);
        self.bindings.push(binding);
    }

    /// Unregisters the bindings matching the key and modifier. Returns `true` if
    /// one was removed.
    pub fn unregister(&mut self, key: &str, modifier: &KeyModifier) -> (r: bool)
        ensures
            final(self).binding_list() == without_key(old(self).binding_list(), key@, *modifier),
            r == (final(self).binding_list().len() < old(self).binding_list().len()),
    {
        let initial_len = self.bindings.len();
        self.remove_matching(key, modifier);
        self.bindings.len() < initial_len
    }

    /// Dispatches a key press and returns the associated action, if any.
    pub fn dispatch(&self, key: &str, modifier: &KeyModifier) -> (r: Option<KeyAction>)
        ensures
            r == dispatched(self.binding_list(), key@, *modifier),
    {
        let ghost bs = self.bindings@;
        let mut i: usize = 0;
        assert(bs.skip(0) =~= bs);
        while i < self.bindings.len()
            invariant
                i <= bs.len(),
                bs == self.bindings@,
                first_match(bs, key@, *modifier) == match first_match(bs.skip(i as int), key@, *modifier) {
                    Some(j) => Some(j + i),
                    None => None,
                },
            decreases bs.len() - i,
        {
            assert(bs.skip(i as int)[0] == bs[i as int]);
            assert(bs.skip(i as int).drop_first() =~= bs.skip(i + 1));
            if self.bindings[i].matches(key, modifier) {
                return Some(self.bindings[i].action.duplicate());
            }
            i += 1;
        }
        None
    }

    /// Returns the active bindings.
    pub fn bindings(&self) -> (r: &[ShortcutBinding])
        ensures
            r@ == self.binding_list(),
    {
        self.bindings.as_slice()
    }

    /// Removes all registered bindings.
    pub fn clear(&mut self)
        ensures
            final(self).binding_list().len() == 0,
    {
        self.bindings.clear();
    }
}

impl Default for KeybindManager {
    fn default() -> (r: Self)
        ensures
            is_default_bindings(r.binding_list()),
    {
        Self::new()
    }
}

/// `eq_ignore_ascii_case` is an equivalence.
pub proof fn lemma_eq_ignore_case_equiv(a: Seq<char>, b: Seq<char>, c: Seq<char>)
    ensures
        eq_ignore_ascii_case(a, a),
        eq_ignore_ascii_case(a, b) ==> eq_ignore_ascii_case(b, a),
        eq_ignore_ascii_case(a, b) && eq_ignore_ascii_case(b, c) ==> eq_ignore_ascii_case(a, c),
{
}

proof fn lemma_first_match_none(bs: Seq<ShortcutBinding>, key: Seq<char>, modifier: KeyModifier)
    requires
        forall|i: int| 0 <= i < bs.len() ==> !binding_matches(#[trigger] bs[i], key, modifier),
    ensures
        first_match(bs, key, modifier) is None,
    decreases bs.len(),
{
    if bs.len() > 0 {
        assert forall|i: int| 0 <= i < bs.drop_first().len() implies !binding_matches(
            #[trigger] bs.drop_first()[i],
            key,
            modifier,
        ) by {
            assert(bs.drop_first()[i] == bs[i + 1]);
        }
        lemma_first_match_none(bs.drop_first(), key, modifier);
    }
}

proof fn lemma_first_match_last(bs: Seq<ShortcutBinding>, key: Seq<char>, modifier: KeyModifier)
    requires
        bs.len() > 0,
        binding_matches(bs.last(), key, modifier),
        forall|i: int| 0 <= i < bs.len() - 1 ==> !binding_matches(#[trigger] bs[i], key, modifier),
    ensures
        first_match(bs, key, modifier) == Some(bs.len() - 1),
    decreases bs.len(),
{
    if bs.len() > 1 {
        let u = bs.drop_first();
        assert forall|i: int| 0 <= i < u.len() - 1 implies !binding_matches(#[trigger] u[i], key, modifier) by {
            assert(u[i] == bs[i + 1]);
        }
        assert(u.last() == bs.last());
        lemma_first_match_last(u, key, modifier);
    }
}

/// After registering a binding, a key press that it answers to dispatches its action.
pub proof fn law_register_then_dispatch(
    bs: Seq<ShortcutBinding>,
    b: ShortcutBinding,
    key: Seq<char>,
)
    requires
        eq_ignore_ascii_case(b.key@, key),
    ensures
        dispatched(without_key(bs, b.key@, b.modifier).push(b), key, b.modifier) == Some(b.action),
{
    let kept = without_key(bs, b.key@, b.modifier);
    let r = kept.push(b);
    assert forall|i: int| 0 <= i < r.len() - 1 implies !binding_matches(#[trigger] r[i], key, b.modifier) by {
        assert(r[i] == kept[i]);
        broadcast use vstd::seq_lib::group_filter_ensures;
        lemma_eq_ignore_case_equiv(kept[i].key@, key, b.key@);
        lemma_eq_ignore_case_equiv(key, b.key@, b.key@);
        lemma_eq_ignore_case_equiv(b.key@, key, key);
    }
    lemma_first_match_last(r, key, b.modifier);
}

/// After unregistering a key and modifier, pressing them dispatches nothing.
pub proof fn law_unregister_then_dispatch(bs: Seq<ShortcutBinding>, key: Seq<char>, modifier: KeyModifier)
    ensures
        dispatched(without_key(bs, key, modifier), key, modifier) is None,
{
    let kept = without_key(bs, key, modifier);
    assert forall|i: int| 0 <= i < kept.len() implies !binding_matches(#[trigger] kept[i], key, modifier) by {
        broadcast use vstd::seq_lib::group_filter_ensures;
    }
    lemma_first_match_none(kept, key, modifier);
}

} // verus!
