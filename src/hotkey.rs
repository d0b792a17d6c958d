use vstd::prelude::*;

use crate::Failure;

verus! {

/// Opaque handle of the system's global-hotkey registration; dropping it
/// unregisters every hotkey it registered.
#[verifier::external_type_specification]
#[verifier::external_body]
pub struct ExGlobalHotKeyManager(global_hotkey::GlobalHotKeyManager);

/// Opaque description of one global key combination.
#[verifier::external_type_specification]
#[verifier::external_body]
pub struct ExHotKey(global_hotkey::hotkey::HotKey);

/// Opaque error of the global-hotkey facility.
#[verifier::external_type_specification]
#[verifier::external_body]
pub struct ExHotkeyError(global_hotkey::Error);

/// What a hotkey asks for: the prompt to apply, and whether the answer is
/// typed back into the focused application ("directly") or shown in the window.
#[derive(Clone, Copy, Debug, PartialEq, Eq, Structural)]
pub enum Function {
    Rewrite,
    RewriteDirectly,
    Translate,
    TranslateDirectly,
}

impl Function {
    pub open spec fn directly(self) -> bool {
        self == Function::RewriteDirectly || self == Function::TranslateDirectly
    }

    /// True when the answer is typed into the focused application.
    pub fn is_directly(&self) -> (r: bool)
        ensures
            r == self.directly(),
    {
        match self {
            Function::RewriteDirectly | Function::TranslateDirectly => true,
            _ => false,
        }
    }
}

/// The function bound to registered id `id`, with ids in the order rewrite,
/// rewrite directly, translate, translate directly; the first match wins.
pub open spec fn function_for(ids: Seq<u32>, id: u32) -> Function {
    if id == ids[0] {
        Function::Rewrite
    } else if id == ids[1] {
        Function::RewriteDirectly
    } else if id == ids[2] {
        Function::Translate
    } else {
        Function::TranslateDirectly
    }
}

/// The function bound to `id`, if `id` is one of `ids`.
pub fn function_of(ids: &[u32; 4], id: u32) -> (r: Option<Function>)
    ensures
        r == (if ids@.contains(id) {
            Some(function_for(ids@, id))
        } else {
            None
        }),
{
    if id == ids[0] {
        assert(ids@[0] == id);
        Some(Function::Rewrite)
    } else if id == ids[1] {
        assert(ids@[1] == id);
        Some(Function::RewriteDirectly)
    } else if id == ids[2] {
        assert(ids@[2] == id);
        Some(Function::Translate)
    } else if id == ids[3] {
        assert(ids@[3] == id);
        Some(Function::TranslateDirectly)
    } else {
        assert(!ids@.contains(id)) by {
            if ids@.contains(id) {
                let i = choose|i: int| 0 <= i < ids@.len() && ids@[i] == id;
                assert(0 <= i < 4);
            }
        }
        None
    }
}

/// The four configured combinations.
pub struct Hotkeys {
    pub rewrite: global_hotkey::hotkey::HotKey,
    pub rewrite_directly: global_hotkey::hotkey::HotKey,
    pub translate: global_hotkey::hotkey::HotKey,
    pub translate_directly: global_hotkey::hotkey::HotKey,
}

/// Relies on `global_hotkey::GlobalHotKeyManager::new`: opens the system's
/// hotkey registration, or says why it cannot.
#[verifier::external_body]
fn open_manager() -> (r: Result<global_hotkey::GlobalHotKeyManager, global_hotkey::Error>) {
    global_hotkey::GlobalHotKeyManager::new()
}

/// Relies on `global_hotkey::GlobalHotKeyManager::register_all`: registers
/// the combinations in one batch.
#[verifier::external_body]
fn register_all(
    manager: &global_hotkey::GlobalHotKeyManager,
    hotkeys: &[global_hotkey::hotkey::HotKey; 4],
) -> (r: Result<(), global_hotkey::Error>) {
    manager.register_all(hotkeys)
}

/// Relies on `global_hotkey::hotkey::HotKey::id`: the id that events of this
/// combination carry.
#[verifier::external_body]
fn hotkey_id(hotkey: &global_hotkey::hotkey::HotKey) -> (r: u32) {
    hotkey.id()
}

/// The registered hotkeys: the system handle that keeps them registered, the
/// combinations handed to it, and the id of each function's combination.
pub struct Manager {
    inner: global_hotkey::GlobalHotKeyManager,
    keys: Ghost<Seq<global_hotkey::hotkey::HotKey>>,
    ids: [u32; 4],
}

impl Manager {
    /// Ids of the combinations of rewrite, rewrite directly, translate and
    /// translate directly, in that order.
    pub closed spec fn registered(&self) -> Seq<u32> {
        self.ids@
    }

    /// The combinations registered in one batch, in the order rewrite,
    /// rewrite directly, translate, translate directly.
    pub closed spec fn registered_keys(&self) -> Seq<global_hotkey::hotkey::HotKey> {
        self.keys@
    }

    /// Registers the four combinations with the system; fails with `Hotkey`
    /// when the system refuses the handle or a registration.
    pub fn init(hotkeys: &Hotkeys) -> (r: Result<Manager, Failure>)
        ensures
            r is Ok ==> r->Ok_0.registered().len() == 4,
            r is Ok ==> r->Ok_0.registered_keys() == seq![
                hotkeys.rewrite,
                hotkeys.rewrite_directly,
                hotkeys.translate,
                hotkeys.translate_directly,
            ],
            r is Err ==> r->Err_0 is Hotkey,
    {
        let inner = match open_manager() {
            Ok(m) => m,
            Err(e) => {
                return Err(Failure::Hotkey(e));
            },
        };
        let all = [
            hotkeys.rewrite,
            hotkeys.rewrite_directly,
            hotkeys.translate,
            hotkeys.translate_directly,
        ];
        let ghost keys = seq![
            hotkeys.rewrite,
            hotkeys.rewrite_directly,
            hotkeys.translate,
            hotkeys.translate_directly,
        ];
        match register_all(&inner, &all) {
            Ok(()) => {},
            Err(e) => {
                return Err(Failure::Hotkey(e));
            },
        }
        let ids = [
            hotkey_id(&hotkeys.rewrite),
            hotkey_id(&hotkeys.rewrite_directly),
            hotkey_id(&hotkeys.translate),
            hotkey_id(&hotkeys.translate_directly),
        ];
        Ok(Manager { inner, keys: Ghost(keys), ids })
    }

    /// The ids in registration order.
    pub fn ids(&self) -> (r: [u32; 4])
        ensures
            r@ == self.registered(),
    {
        self.ids
    }

    /// The function bound to `id`; the system delivers events only for ids
    /// this manager registered.
    pub fn match_func(&self, id: u32) -> (r: Function)
        requires
            self.registered().contains(id),
        ensures
            r == function_for(self.registered(), id),
    {
        match function_of(&self.ids, id) {
            Some(f) => f,
            None => Function::Rewrite,
        }
    }
}

} // verus!
