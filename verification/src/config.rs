//! Settings of the pop-up notifier: backend connection, pop-up timing, the
//! filter rules and window behaviour. Reading and writing the settings file
//! happens outside the library.

use vstd::prelude::*;
use vstd::string::{StrSliceExecFns, StringExecFns};

verus! {

/// Backend connection.
#[derive(Clone, Debug)]
pub struct BackendCfg {
    /// `ws` or `poll`.
    pub mode: String,
    pub url: String,
    pub token: String,
    pub poll_secs: u64,
}

impl Default for BackendCfg {
    fn default() -> (c: Self)
        ensures
            c.mode@.len() == 0,
            c.url@.len() == 0,
            c.token@.len() == 0,
            c.poll_secs == 0,
    {
        BackendCfg { mode: String::new(), url: String::new(), token: String::new(), poll_secs: 0 }
    }
}

/// Pop-up timing.
#[derive(Clone, Debug)]
pub struct PopupCfg {
    pub enabled: bool,
    pub secs: u64,
    pub max_queue: usize,
}

impl Default for PopupCfg {
    fn default() -> (c: Self)
        ensures
            c.enabled,
            c.secs == 6,
            c.max_queue == 10,
    {
        PopupCfg { enabled: true, secs: 6, max_queue: 10 }
    }
}

/// Which notifications may pop up.
#[derive(Clone, Debug)]
pub struct FilterCfg {
    /// Allowed categories; empty allows all.
    pub categories: Vec<String>,
    /// `low`, `normal` or `high`.
    pub min_priority: String,
    /// A title or body holding one of these is dropped.
    pub block: Vec<String>,
    /// When not empty, only a title or body holding one of these shows.
    pub only: Vec<String>,
}

impl Default for FilterCfg {
    fn default() -> (c: Self)
        ensures
            c.categories@.len() == 0,
            c.min_priority@.len() == 0,
            c.block@.len() == 0,
            c.only@.len() == 0,
    {
        FilterCfg { categories: Vec::new(), min_priority: String::new(), block: Vec::new(), only: Vec::new() }
    }
}

/// Window behaviour.
#[derive(Clone, Debug)]
pub struct UiCfg {
    pub start_minimized: bool,
}

impl Default for UiCfg {
    fn default() -> (c: Self)
        ensures
            !c.start_minimized,
    {
        UiCfg { start_minimized: false }
    }
}

/// All settings.
#[derive(Clone, Debug)]
pub struct Config {
    pub backend: BackendCfg,
    pub popup: PopupCfg,
    pub filter: FilterCfg,
    pub ui: UiCfg,
}

impl Default for Config {
    fn default() -> (c: Self)
        ensures
            c.backend.url@.len() == 0,
            c.backend.mode@.len() == 0,
            c.popup.enabled && c.popup.secs == 6 && c.popup.max_queue == 10,
            c.filter.categories@.len() == 0 && c.filter.block@.len() == 0 && c.filter.only@.len() == 0,
            c.filter.min_priority@.len() == 0,
            !c.ui.start_minimized,
    {
        Config {
            backend: BackendCfg::default(),
            popup: PopupCfg::default(),
            filter: FilterCfg::default(),
            ui: UiCfg::default(),
        }
    }
}

pub open spec fn default_mode() -> Seq<char> {
    seq!['w', 's']
}

pub open spec fn default_url() -> Seq<char> {
    seq!['w', 's', ':', '/', '/', '1', '2', '7', '.', '0', '.', '0', '.', '1', ':', '9', '0', '0', '0', '/', 'w', 's']
}

/// The factory backend: the demo WebSocket server on port 9000.
pub open spec fn is_default_backend(b: BackendCfg) -> bool {
    &&& b.mode@ == default_mode()
    &&& b.url@ == default_url()
    &&& b.token@.len() == 0
    &&& b.poll_secs == 5
}

impl BackendCfg {
    /// The factory backend: `ws` mode against the demo server, no token,
    /// polling every 5 s.
    pub fn defaults() -> (c: Self)
        ensures
            is_default_backend(c),
    {
        proof {
            reveal_strlit("ws");
            reveal_strlit("ws://127.0.0.1:9000/ws");
            assert("ws"@ =~= default_mode());
            assert("ws://127.0.0.1:9000/ws"@ =~= default_url());
        }
        BackendCfg {
            mode: String::from_str("ws"),
            url: String::from_str("ws://127.0.0.1:9000/ws"),
            token: String::new(),
            poll_secs: 5,
        }
    }
}

/// Completes loaded settings: a backend without an address is replaced by the
/// factory backend; everything else stays.
pub fn with_defaults(c: Config) -> (r: Config)
    ensures
        c.backend.url@.len() == 0 ==> is_default_backend(r.backend),
        c.backend.url@.len() != 0 ==> r.backend == c.backend,
        r.popup == c.popup,
        r.filter == c.filter,
        r.ui == c.ui,
{
    let mut c = c;
    if c.backend.url.unicode_len() == 0 {
        c.backend = BackendCfg::defaults();
    }
    c
}

impl Config {
    /// The factory settings: defaults everywhere, the factory backend.
    pub fn demo() -> (c: Config)
        ensures
            is_default_backend(c.backend),
            c.popup.enabled && c.popup.secs == 6 && c.popup.max_queue == 10,
            c.filter.categories@.len() == 0 && c.filter.block@.len() == 0 && c.filter.only@.len() == 0,
            c.filter.min_priority@.len() == 0,
            !c.ui.start_minimized,
    {
        let mut c = Config::default();
        c.backend = BackendCfg::defaults();
        c
    }
}

} // verus!
