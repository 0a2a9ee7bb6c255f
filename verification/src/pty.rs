//! Terminal panes: output framing limits, the per-pane PTY registry, and the
//! shell launch plan (sanitized environment, login flag, working directory).

use vstd::prelude::*;
use std::collections::HashMap;
use vstd::std_specs::iter::IteratorSpec;
use crate::text::{chars_of, concat2, owned, str_eq, string_from_chars, u64_to_decimal, decimal};
use crate::session::trim_white;

verus! {

broadcast use vstd::std_specs::hash::group_hash_axioms;

/// Maximum bytes read from a PTY in one read (8 KiB).
pub const PTY_READ_CHUNK: usize = 8_192;
/// Maximum bytes sent to a webview per frame (64 KiB).
pub const PTY_MAX_OUTPUT_PER_FRAME: usize = 65_536;
/// Default terminal columns.
pub const DEFAULT_COLS: u16 = 80;
/// Default terminal rows.
pub const DEFAULT_ROWS: u16 = 24;

/// `s` cut to its first `n` elements.
pub open spec fn cap_bytes(s: Seq<u8>, n: nat) -> Seq<u8> {
    if s.len() <= n {
        s
    } else {
        s.take(n as int)
    }
}

/// Appends one chunk of PTY output to a frame, keeping at most
/// `PTY_MAX_OUTPUT_PER_FRAME` bytes; returns whether the frame is full (no
/// more output should be taken this frame).
pub fn append_capped(buf: &mut Vec<u8>, chunk: &[u8]) -> (full: bool)
    requires
        old(buf)@.len() < PTY_MAX_OUTPUT_PER_FRAME,
    ensures
        final(buf)@ == cap_bytes(old(buf)@ + chunk@, PTY_MAX_OUTPUT_PER_FRAME as nat),
        full == (old(buf)@.len() + chunk@.len() >= PTY_MAX_OUTPUT_PER_FRAME),
        final(buf)@.len() <= PTY_MAX_OUTPUT_PER_FRAME,
{
    let ghost start = buf@;
    let n = chunk.len();
    let mut i: usize = 0;
    while i < n && buf.len() < PTY_MAX_OUTPUT_PER_FRAME
        invariant
            n == chunk@.len(),
            0 <= i <= n,
            start.len() < PTY_MAX_OUTPUT_PER_FRAME,
            buf@ == start + chunk@.take(i as int),
            buf@.len() <= PTY_MAX_OUTPUT_PER_FRAME,
        decreases n - i,
    {
        buf.push(chunk[i]);
        i += 1;
        assert(buf@ =~= start + chunk@.take(i as int));
    }
    let full = buf.len() >= PTY_MAX_OUTPUT_PER_FRAME;
    proof {
        let all = start + chunk@;
        if i == n {
            assert(chunk@.take(n as int) =~= chunk@);
            if full {
                assert(all.len() == PTY_MAX_OUTPUT_PER_FRAME);
                assert(all.take(PTY_MAX_OUTPUT_PER_FRAME as int) =~= all);
            }
        } else {
            assert(buf@.len() == PTY_MAX_OUTPUT_PER_FRAME);
            assert(buf@ =~= all.take(PTY_MAX_OUTPUT_PER_FRAME as int));
        }
    }
    full
}

/// The error for an operation on a pane that has no PTY.
pub fn missing_pane_error(pane_id: u32) -> (r: String)
    ensures
        r@ == "No PTY for pane "@ + decimal(pane_id as nat),
{
    let n = u64_to_decimal(pane_id as u64);
    concat2("No PTY for pane ", n.as_str())
}

/// The operations a live PTY offers its registry. What they return depends
/// on the child process and the operating system.
pub trait PtyOps {
    /// Writes keystrokes to the PTY.
    fn write_input(&mut self, data: &[u8]) -> Result<(), String>;

    /// Resizes the terminal.
    fn resize(&mut self, cols: u16, rows: u16) -> Result<(), String>;

    /// Kills the child process.
    fn kill(&mut self);

    /// Waits for the child to exit and gives its exit code.
    fn wait_exit_code(&mut self) -> Option<u32>;

    /// Takes the output available now, at most one frame of it.
    fn drain_output(&self) -> Vec<u8>;

    /// Whether the child has exited and its output is drained.
    fn is_finished(&self) -> bool;
}

/// `HashMap::get_mut` (std). Claimed, as its documentation says: a mutable
/// reference to the value under `k` if there is one; writes through it land
/// in the map.
#[verifier::external_body]
fn map_get_mut<H>(m: &mut HashMap<u32, H>, k: u32) -> (r: Option<&mut H>)
    ensures
        match r {
            Some(h) => old(m)@.contains_key(k) && *h == old(m)@[k] && final(m)@ == old(m)@.insert(k, *final(h)),
            None => !old(m)@.contains_key(k) && final(m)@ == old(m)@,
        },
{
    m.get_mut(&k)
}

/// All PTYs, keyed by pane id.
pub struct PtyManager<H> {
    handles: HashMap<u32, H>,
}

impl<H> View for PtyManager<H> {
    type V = Map<u32, H>;

    closed spec fn view(&self) -> Map<u32, H> {
        self.handles@
    }
}

impl<H> Default for PtyManager<H> {
    fn default() -> (r: Self)
        ensures
            r@ == Map::<u32, H>::empty(),
    {
        PtyManager::new()
    }
}

impl<H> PtyManager<H> {
    /// An empty registry.
    pub fn new() -> (r: Self)
        ensures
            r@ == Map::<u32, H>::empty(),
    {
        PtyManager { handles: HashMap::new() }
    }

    /// Registers the PTY of a pane (replacing any earlier one).
    pub fn insert(&mut self, pane_id: u32, handle: H)
        ensures
            final(self)@ == old(self)@.insert(pane_id, handle),
    {
        self.handles.insert(pane_id, handle);
    }

    /// Removes and returns the PTY of a pane.
    pub fn remove(&mut self, pane_id: u32) -> (r: Option<H>)
        ensures
            final(self)@ == old(self)@.remove(pane_id),
            match r {
                Some(h) => old(self)@.contains_key(pane_id) && h == old(self)@[pane_id],
                None => !old(self)@.contains_key(pane_id),
            },
    {
        self.handles.remove(&pane_id)
    }

    /// The PTY of a pane.
    pub fn get(&self, pane_id: u32) -> (r: Option<&H>)
        ensures
            match r {
                Some(h) => self@.contains_key(pane_id) && *h == self@[pane_id],
                None => !self@.contains_key(pane_id),
            },
    {
        self.handles.get(&pane_id)
    }

    /// The PTY of a pane, for changes.
    pub fn get_mut(&mut self, pane_id: u32) -> (r: Option<&mut H>)
        ensures
            match r {
                Some(h) => old(self)@.contains_key(pane_id) && *h == old(self)@[pane_id] && final(self)@ == old(
                    self,
                )@.insert(pane_id, *final(h)),
                None => !old(self)@.contains_key(pane_id) && final(self)@ == old(self)@,
            },
    {
        map_get_mut(&mut self.handles, pane_id)
    }

    /// Whether a pane has a PTY.
    pub fn contains(&self, pane_id: u32) -> (r: bool)
        ensures
            r == self@.contains_key(pane_id),
    {
        self.handles.contains_key(&pane_id)
    }

    /// The panes that have a PTY, each once.
    pub fn pane_ids(&self) -> (r: Vec<u32>)
        ensures
            r@.to_set() == self@.dom(),
            r@.no_duplicates(),
    {
        let mut out: Vec<u32> = Vec::new();
        for k in it: self.handles.keys()
            invariant
                out@ == it.seq().take(it.index() as int).unref(),
                it.seq().unref().to_set() == self@.dom(),
                it.index() == it.seq().len() ==> out@.to_set() == self@.dom(),
        {
            out.push(*k);
            proof {
                assert(it.seq().take(it.index() + 1).unref() =~= out@);
                assert(it.index() + 1 == it.seq().len() ==> it.seq().take(it.index() + 1) =~= it.seq());
            }
        }
        out
    }

    /// Number of PTYs.
    pub fn len(&self) -> (r: usize)
        ensures
            r == self@.len(),
    {
        self.handles.len()
    }

    /// Whether there are no PTYs.
    pub fn is_empty(&self) -> (r: bool)
        ensures
            r == (self@.len() == 0),
    {
        self.handles.is_empty()
    }
}

/// The panes of `ids` paired with their outputs `outs`, in order, keeping
/// only the panes whose output is non-empty.
pub open spec fn nonempty_outputs(ids: Seq<u32>, outs: Seq<Vec<u8>>) -> Seq<(u32, Vec<u8>)>
    decreases ids.len(),
{
    if ids.len() == 0 || outs.len() == 0 {
        seq![]
    } else {
        let rest = nonempty_outputs(ids.drop_last(), outs.drop_last());
        if outs.last()@.len() > 0 {
            rest.push((ids.last(), outs.last()))
        } else {
            rest
        }
    }
}

/// The panes of `ids` whose flag in `flags` is set, in order.
pub open spec fn flagged_panes(ids: Seq<u32>, flags: Seq<bool>) -> Seq<u32>
    decreases ids.len(),
{
    if ids.len() == 0 || flags.len() == 0 {
        seq![]
    } else {
        let rest = flagged_panes(ids.drop_last(), flags.drop_last());
        if flags.last() {
            rest.push(ids.last())
        } else {
            rest
        }
    }
}

/// "No PTY for pane <id>".
pub open spec fn missing_pane_text(pane_id: u32) -> Seq<char> {
    "No PTY for pane "@ + decimal(pane_id as nat)
}

impl<H: PtyOps> PtyManager<H> {
    /// Writes keystrokes to a pane's PTY and gives what the PTY answered; an
    /// error for a pane without one.
    pub fn write_input(&mut self, pane_id: u32, data: &[u8]) -> (r: Result<(), String>)
        ensures
            final(self)@.dom() == old(self)@.dom(),
            !old(self)@.contains_key(pane_id) ==> final(self)@ == old(self)@ && (r matches Err(e) && e@
                == missing_pane_text(pane_id)),
            old(self)@.contains_key(pane_id) ==> exists|h: &mut H|
                #![trigger call_ensures(H::write_input, (h, data), r)]
                *h == old(self)@[pane_id] && final(self)@ == old(self)@.insert(pane_id, *final(h))
                    && call_ensures(H::write_input, (h, data), r),
    {
        match self.get_mut(pane_id) {
            Some(h) => h.write_input(data),
            None => Err(missing_pane_error(pane_id)),
        }
    }

    /// Resizes a pane's PTY and gives what the PTY answered; an error for a
    /// pane without one.
    pub fn resize(&mut self, pane_id: u32, cols: u16, rows: u16) -> (r: Result<(), String>)
        ensures
            final(self)@.dom() == old(self)@.dom(),
            !old(self)@.contains_key(pane_id) ==> final(self)@ == old(self)@ && (r matches Err(e) && e@
                == missing_pane_text(pane_id)),
            old(self)@.contains_key(pane_id) ==> exists|h: &mut H|
                #![trigger call_ensures(H::resize, (h, cols, rows), r)]
                *h == old(self)@[pane_id] && final(self)@ == old(self)@.insert(pane_id, *final(h))
                    && call_ensures(H::resize, (h, cols, rows), r),
    {
        match self.get_mut(pane_id) {
            Some(h) => h.resize(cols, rows),
            None => Err(missing_pane_error(pane_id)),
        }
    }

    /// Kills and forgets a pane's PTY: the child is killed, then waited on,
    /// and its exit code (when the wait gave one) is returned; nothing for a
    /// pane without one.
    pub fn kill_and_remove(&mut self, pane_id: u32) -> (r: Option<u32>)
        ensures
            final(self)@ == old(self)@.remove(pane_id),
            !old(self)@.contains_key(pane_id) ==> r is None,
            old(self)@.contains_key(pane_id) ==> exists|k: &mut H, w: &mut H|
                #![trigger call_ensures(H::kill, (k,), ()), call_ensures(H::wait_exit_code, (w,), r)]
                *k == old(self)@[pane_id] && call_ensures(H::kill, (k,), ()) && *w == *final(k)
                    && call_ensures(H::wait_exit_code, (w,), r),
    {
        match self.remove(pane_id) {
            Some(h) => {
                let mut h = h;
                h.kill();
                h.wait_exit_code()
            },
            None => None,
        }
    }

    /// Kills and forgets every PTY, each child killed and then waited on.
    pub fn kill_all(&mut self)
        ensures
            final(self)@ == Map::<u32, H>::empty(),
            forall|p: u32| #[trigger] old(self)@.contains_key(p) ==> exists|k: &mut H, w: &mut H, c: Option<u32>|
                #![trigger call_ensures(H::kill, (k,), ()), call_ensures(H::wait_exit_code, (w,), c)]
                *k == old(self)@[p] && call_ensures(H::kill, (k,), ()) && *w == *final(k)
                    && call_ensures(H::wait_exit_code, (w,), c),
    {
        let ids = self.pane_ids();
        let n = ids.len();
        let mut i: usize = 0;
        while i < n
            invariant
                n == ids@.len(),
                0 <= i <= n,
                ids@.to_set() == old(self)@.dom(),
                ids@.no_duplicates(),
                forall|k: u32| #[trigger] self@.contains_key(k) <==> (old(self)@.contains_key(k) && !ids@.take(
                    i as int,
                ).contains(k)),
                forall|k: u32| #[trigger] self@.contains_key(k) ==> self@[k] == old(self)@[k],
                forall|p: u32| #[trigger] old(self)@.contains_key(p) && ids@.take(i as int).contains(p) ==> exists|
                    k: &mut H,
                    w: &mut H,
                    c: Option<u32>,
                |
                    #![trigger call_ensures(H::kill, (k,), ()), call_ensures(H::wait_exit_code, (w,), c)]
                    *k == old(self)@[p] && call_ensures(H::kill, (k,), ()) && *w == *final(k)
                        && call_ensures(H::wait_exit_code, (w,), c),
            decreases n - i,
        {
            let id = ids[i];
            let ghost before = self@;
            let code = self.kill_and_remove(id);
            proof {
                let t0 = ids@.take(i as int);
                let t1 = ids@.take(i + 1);
                assert(t1[i as int] == id);
                assert(ids@.to_set().contains(id));
                assert(!t0.contains(id)) by {
                    if t0.contains(id) {
                        let j = choose|j: int| 0 <= j < t0.len() && t0[j] == id;
                        assert(ids@[j] == ids@[i as int]);
                    }
                }
                assert(before.contains_key(id));
                assert forall|k: u32| #[trigger] self@.contains_key(k) <==> (old(self)@.contains_key(k)
                    && !t1.contains(k)) by {
                    if t0.contains(k) {
                        let j = choose|j: int| 0 <= j < t0.len() && t0[j] == k;
                        assert(t1[j] == k);
                    }
                    if t1.contains(k) && k != id {
                        let j = choose|j: int| 0 <= j < t1.len() && t1[j] == k;
                        assert(j != i);
                        assert(t0[j] == k);
                    }
                }
                assert forall|p: u32| #[trigger] old(self)@.contains_key(p) && t1.contains(p) implies exists|
                    k: &mut H,
                    w: &mut H,
                    c: Option<u32>,
                |
                    #![trigger call_ensures(H::kill, (k,), ()), call_ensures(H::wait_exit_code, (w,), c)]
                    *k == old(self)@[p] && call_ensures(H::kill, (k,), ()) && *w == *final(k)
                        && call_ensures(H::wait_exit_code, (w,), c) by {
                    if p == id {
                        let (k, w) = choose|k: &mut H, w: &mut H|
                            #![trigger call_ensures(H::kill, (k,), ()), call_ensures(H::wait_exit_code, (w,), code)]
                            *k == before[id] && call_ensures(H::kill, (k,), ()) && *w == *final(k)
                                && call_ensures(H::wait_exit_code, (w,), code);
                        assert(call_ensures(H::kill, (k,), ()) && call_ensures(H::wait_exit_code, (w,), code));
                    } else {
                        let j = choose|j: int| 0 <= j < t1.len() && t1[j] == p;
                        assert(j != i);
                        assert(t0[j] == p);
                        assert(t0.contains(p));
                    }
                }
            }
            i += 1;
        }
        proof {
            assert(ids@.take(n as int) =~= ids@);
            assert forall|k: u32| !self@.contains_key(k) by {
                if old(self)@.contains_key(k) {
                    assert(ids@.to_set().contains(k));
                }
            }
            assert(self@ =~= Map::<u32, H>::empty());
            assert forall|p: u32| #[trigger] old(self)@.contains_key(p) implies ids@.take(n as int).contains(p) by {
                assert(ids@.to_set().contains(p));
            }
        }
    }

    /// Drains every pane once and gives `(pane, output)` for each pane whose
    /// output is non-empty, in the order the panes were visited.
    pub fn drain_all_output(&self) -> (r: Vec<(u32, Vec<u8>)>)
        ensures
            exists|ids: Seq<u32>, outs: Seq<Vec<u8>>|
                #![trigger nonempty_outputs(ids, outs)]
                {
                    &&& ids.to_set() == self@.dom()
                    &&& ids.no_duplicates()
                    &&& outs.len() == ids.len()
                    &&& forall|i: int| 0 <= i < ids.len() ==> call_ensures(H::drain_output, (&self@[ids[i]],), #[trigger] outs[i])
                    &&& r@ == nonempty_outputs(ids, outs)
                },
    {
        let ids = self.pane_ids();
        let mut results: Vec<(u32, Vec<u8>)> = Vec::new();
        let ghost mut outs: Seq<Vec<u8>> = Seq::empty();
        let n = ids.len();
        let mut i: usize = 0;
        while i < n
            invariant
                n == ids@.len(),
                0 <= i <= n,
                ids@.to_set() == self@.dom(),
                outs.len() == i,
                forall|a: int| 0 <= a < i ==> call_ensures(H::drain_output, (&self@[ids@[a]],), #[trigger] outs[a]),
                results@ == nonempty_outputs(ids@.take(i as int), outs),
            decreases n - i,
        {
            let id = ids[i];
            proof {
                assert(ids@.to_set().contains(id));
            }
            let output: Vec<u8> = match self.get(id) {
                Some(h) => h.drain_output(),
                None => Vec::new(),
            };
            proof {
                let t = ids@.take(i + 1);
                assert(t.drop_last() =~= ids@.take(i as int));
                assert(outs.push(output).drop_last() =~= outs);
                outs = outs.push(output);
            }
            if output.len() > 0 {
                results.push((id, output));
            }
            i += 1;
        }
        proof {
            assert(ids@.take(n as int) =~= ids@);
        }
        results
    }

    /// Asks every pane once whether its child has finished, and lists those
    /// that have, in the order the panes were visited.
    pub fn check_finished(&self) -> (r: Vec<u32>)
        ensures
            exists|ids: Seq<u32>, flags: Seq<bool>|
                #![trigger flagged_panes(ids, flags)]
                {
                    &&& ids.to_set() == self@.dom()
                    &&& ids.no_duplicates()
                    &&& flags.len() == ids.len()
                    &&& forall|i: int| 0 <= i < ids.len() ==> call_ensures(H::is_finished, (&self@[ids[i]],), #[trigger] flags[i])
                    &&& r@ == flagged_panes(ids, flags)
                },
    {
        let ids = self.pane_ids();
        let mut finished: Vec<u32> = Vec::new();
        let ghost mut flags: Seq<bool> = Seq::empty();
        let n = ids.len();
        let mut i: usize = 0;
        while i < n
            invariant
                n == ids@.len(),
                0 <= i <= n,
                ids@.to_set() == self@.dom(),
                flags.len() == i,
                forall|a: int| 0 <= a < i ==> call_ensures(H::is_finished, (&self@[ids@[a]],), #[trigger] flags[a]),
                finished@ == flagged_panes(ids@.take(i as int), flags),
            decreases n - i,
        {
            let id = ids[i];
            proof {
                assert(ids@.to_set().contains(id));
            }
            let done = match self.get(id) {
                Some(h) => h.is_finished(),
                None => false,
            };
            proof {
                let t = ids@.take(i + 1);
                assert(t.drop_last() =~= ids@.take(i as int));
                assert(flags.push(done).drop_last() =~= flags);
                flags = flags.push(done);
            }
            if done {
                finished.push(id);
            }
            i += 1;
        }
        proof {
            assert(ids@.take(n as int) =~= ids@);
        }
        finished
    }
}

// ---------------------------------------------------------------------------
// Shell launch
// ---------------------------------------------------------------------------

/// The environment variables a shell inherits from the app; nothing else of
/// the app's environment (API keys, tokens) reaches it.
pub open spec fn allowed_env_list() -> Seq<Seq<char>> {
    seq![
        "HOME"@, "USER"@, "LOGNAME"@, "SHELL"@, "PATH"@, "TERM"@, "LANG"@, "LC_ALL"@, "LC_CTYPE"@,
        "DISPLAY"@, "WAYLAND_DISPLAY"@, "XDG_RUNTIME_DIR"@, "TMPDIR"@, "TMP"@, "TEMP"@, "USERPROFILE"@,
        "APPDATA"@, "LOCALAPPDATA"@, "SYSTEMROOT"@, "COMSPEC"@, "HOMEDRIVE"@, "HOMEPATH"@,
    ]
}

/// The inherited environment variables, in the order they are applied.
pub fn allowed_env_vars() -> (r: Vec<&'static str>)
    ensures
        r@.map_values(|s: &str| s@) == allowed_env_list(),
{
    let r = vec![
        "HOME", "USER", "LOGNAME", "SHELL", "PATH", "TERM", "LANG", "LC_ALL", "LC_CTYPE", "DISPLAY",
        "WAYLAND_DISPLAY", "XDG_RUNTIME_DIR", "TMPDIR", "TMP", "TEMP", "USERPROFILE", "APPDATA",
        "LOCALAPPDATA", "SYSTEMROOT", "COMSPEC", "HOMEDRIVE", "HOMEPATH",
    ];
    assert(r@.map_values(|s: &str| s@) =~= allowed_env_list());
    r
}

/// The shell to run when none is configured: `$SHELL`, else `/bin/sh`.
pub fn default_shell_from(shell_var: Option<&str>) -> (r: String)
    ensures
        r@ == match shell_var {
            Some(s) => s@,
            None => "/bin/sh"@,
        },
{
    match shell_var {
        Some(s) => owned(s),
        None => owned("/bin/sh"),
    }
}

/// The program to launch: the configured one unless it is blank, else the
/// default shell.
pub fn choose_program(configured: &str, default_shell: &str) -> (r: String)
    ensures
        r@ == (if trim_white(configured@).len() == 0 { default_shell@ } else { configured@ }),
{
    let t = crate::session::trim_owned(configured);
    if t.as_str().is_empty() {
        owned(default_shell)
    } else {
        owned(configured)
    }
}

/// A working directory with a leading `~` replaced by the home directory
/// (`~` alone or `~/...`); unchanged without a home directory.
pub open spec fn expand_home(dir: Seq<char>, home: Option<Seq<char>>) -> Seq<char> {
    if dir.len() > 0 && dir[0] == '~' && (dir.len() == 1 || dir[1] == '/') {
        match home {
            Some(h) => h + dir.skip(1),
            None => dir,
        }
    } else {
        dir
    }
}

/// How a shell is launched: its environment assignments in order (later ones
/// win), its arguments, and the working directory to use if it exists.
#[derive(Clone, Debug)]
pub struct ShellLaunch {
    pub env: Vec<(String, String)>,
    pub args: Vec<String>,
    pub cwd: Option<String>,
}

/// The environment assignments: the inherited allowlisted variables that are
/// set (`values[i]` is the value of the `i`-th allowlisted variable), then
/// `TERM=xterm-256color`, then the user's configured variables.
pub open spec fn launch_env(
    values: Seq<Option<String>>,
    user_env: Seq<(String, String)>,
) -> Seq<(Seq<char>, Seq<char>)> {
    inherited_env(values, values.len() as int) + seq![("TERM"@, "xterm-256color"@)] + user_env.map_values(
        |p: (String, String)| (p.0@, p.1@),
    )
}

/// The set ones among the first `n` allowlisted variables.
pub open spec fn inherited_env(values: Seq<Option<String>>, n: int) -> Seq<(Seq<char>, Seq<char>)>
    decreases n,
{
    if n <= 0 {
        Seq::empty()
    } else {
        let prev = inherited_env(values, n - 1);
        match values[n - 1] {
            Some(v) => prev.push((allowed_env_list()[n - 1], v@)),
            None => prev,
        }
    }
}

/// Plans a shell launch: the sanitized environment, `-l` for a login shell
/// followed by the configured arguments, and the configured working
/// directory (non-empty) with `~` expanded.
pub fn shell_launch_plan(
    values: &Vec<Option<String>>,
    user_env: &Vec<(String, String)>,
    login_shell: bool,
    user_args: &Vec<String>,
    cwd: Option<&str>,
    home: Option<&str>,
) -> (r: ShellLaunch)
    requires
        values@.len() == allowed_env_list().len(),
    ensures
        r.env@.map_values(|p: (String, String)| (p.0@, p.1@)) == launch_env(values@, user_env@),
        r.args@.map_values(|a: String| a@) == (if login_shell { seq!["-l"@] } else { Seq::empty() })
            + user_args@.map_values(|a: String| a@),
        r.cwd matches Some(d) ==> (cwd matches Some(c) && c@.len() > 0 && d@ == expand_home(
            c@,
            match home {
                Some(h) => Some(h@),
                None => None,
            },
        )),
        r.cwd is None ==> (cwd is None || (cwd matches Some(c) && c@.len() == 0)),
{
    let names = allowed_env_vars();
    let mut env: Vec<(String, String)> = Vec::new();
    let mut i: usize = 0;
    while i < values.len()
        invariant
            values@.len() == allowed_env_list().len(),
            names@.map_values(|s: &str| s@) == allowed_env_list(),
            0 <= i <= values@.len(),
            env@.map_values(|p: (String, String)| (p.0@, p.1@)) == inherited_env(values@, i as int),
        decreases values@.len() - i,
    {
        match &values[i] {
            Some(v) => {
                let ghost before = env@;
                env.push((owned(names[i]), owned(v.as_str())));
                proof {
                    assert(names@.map_values(|s: &str| s@)[i as int] == names@[i as int]@);
                    assert(env@.map_values(|p: (String, String)| (p.0@, p.1@)) =~= before.map_values(
                        |p: (String, String)| (p.0@, p.1@),
                    ).push((allowed_env_list()[i as int], v@)));
                }
            },
            None => {},
        }
        i += 1;
    }
    let ghost inherited = env@;
    env.push((owned("TERM"), owned("xterm-256color")));
    proof {
        reveal_strlit("TERM");
        reveal_strlit("xterm-256color");
    }
    let mut j: usize = 0;
    while j < user_env.len()
        invariant
            0 <= j <= user_env@.len(),
            env@.map_values(|p: (String, String)| (p.0@, p.1@)) == inherited_env(values@, values@.len() as int)
                + seq![("TERM"@, "xterm-256color"@)] + user_env@.take(j as int).map_values(
                |p: (String, String)| (p.0@, p.1@),
            ),
        decreases user_env@.len() - j,
    {
        let ghost before = env@;
        env.push((owned(user_env[j].0.as_str()), owned(user_env[j].1.as_str())));
        proof {
            let f = |p: (String, String)| (p.0@, p.1@);
            assert(user_env@.take(j + 1) =~= user_env@.take(j as int).push(user_env@[j as int]));
            assert(user_env@.take(j + 1).map_values(f) =~= user_env@.take(j as int).map_values(f).push(
                f(user_env@[j as int]),
            ));
            assert(env@.map_values(f) =~= before.map_values(f).push(f(env@[env@.len() - 1])));
            assert(env@.map_values(|p: (String, String)| (p.0@, p.1@)) =~= inherited_env(
                values@,
                values@.len() as int,
            ) + seq![("TERM"@, "xterm-256color"@)] + user_env@.take(j + 1).map_values(
                |p: (String, String)| (p.0@, p.1@),
            ));
        }
        j += 1;
    }
    assert(user_env@.take(user_env@.len() as int) =~= user_env@);
    let mut args: Vec<String> = Vec::new();
    if login_shell {
        args.push(owned("-l"));
        proof {
            reveal_strlit("-l");
        }
    }
    let ghost head = args@.map_values(|a: String| a@);
    assert(head =~= (if login_shell { seq!["-l"@] } else { Seq::<Seq<char>>::empty() }));
    let mut k: usize = 0;
    while k < user_args.len()
        invariant
            0 <= k <= user_args@.len(),
            args@.map_values(|a: String| a@) == head + user_args@.take(k as int).map_values(|a: String| a@),
        decreases user_args@.len() - k,
    {
        let ghost before_args = args@;
        args.push(owned(user_args[k].as_str()));
        proof {
            assert(args@.map_values(|a: String| a@) =~= before_args.map_values(|a: String| a@).push(
                args@[args@.len() - 1]@,
            ));
            let g = |a: String| a@;
            assert(user_args@.take(k + 1) =~= user_args@.take(k as int).push(user_args@[k as int]));
            assert(user_args@.take(k + 1).map_values(g) =~= user_args@.take(k as int).map_values(g).push(
                g(user_args@[k as int]),
            ));
            assert(args@.map_values(|a: String| a@) =~= head + user_args@.take(k + 1).map_values(
                |a: String| a@,
            ));
        }
        k += 1;
    }
    assert(user_args@.take(user_args@.len() as int) =~= user_args@);
    let dir = match cwd {
        Some(d) => if d.is_empty() {
            None
        } else {
            Some(expand_home_exec(d, home))
        },
        None => None,
    };
    ShellLaunch { env, args, cwd: dir }
}

fn expand_home_exec(dir: &str, home: Option<&str>) -> (r: String)
    ensures
        r@ == expand_home(
            dir@,
            match home {
                Some(h) => Some(h@),
                None => None,
            },
        ),
{
    let cs = chars_of(dir);
    let tilde = cs.len() > 0 && cs[0] == '~' && (cs.len() == 1 || cs[1] == '/');
    if tilde {
        match home {
            Some(h) => {
                let rest = string_from_chars(&cs, 1, cs.len());
                assert(rest@ =~= dir@.skip(1));
                concat2(h, rest.as_str())
            },
            None => owned(dir),
        }
    } else {
        owned(dir)
    }
}

} // verus!
