//! Starting the wrapped client: the command line of the wrapper, the child
//! command built from a shell-quoted command string, and the pacing of the
//! wrapper's main loop.

use vstd::prelude::*;

verus! {

/// The words of `s` as the POSIX-shell splitting of `shlex::Shlex` yields
/// them (up to the first syntax error, where it stops).
pub uninterp spec fn shlex_words(s: Seq<char>) -> Seq<Seq<char>>;

/// The words of a list of strings.
pub open spec fn word_views(words: Seq<String>) -> Seq<Seq<char>> {
    words.map_values(|w: String| w@)
}

/// Splits `c` into words with `shlex::Shlex::new(c)`, collecting every word
/// the iterator yields. The contract claims only that the words are the
/// named result `shlex_words` of `c`: the same string always splits the same
/// way.
#[verifier::external_body]
fn shell_words(c: &str) -> (words: Vec<String>)
    ensures
        word_views(words@) == shlex_words(c@),
{
    shlex::Shlex::new(c).collect()
}

/// A change to the environment of the child process, applied in order.
#[derive(Debug)]
pub enum EnvOp {
    /// set the variable to the value
    Assign(String, String),
    /// set the variable to the decimal form of the file descriptor
    SetFd(String, i32),
    /// remove the variable
    Remove(String),
}

/// An environment change as a mathematical value.
pub enum EnvOpView {
    Assign(Seq<char>, Seq<char>),
    SetFd(Seq<char>, i32),
    Remove(Seq<char>),
}

impl View for EnvOp {
    type V = EnvOpView;

    open spec fn view(&self) -> EnvOpView {
        match self {
            EnvOp::Assign(k, v) => EnvOpView::Assign(k@, v@),
            EnvOp::SetFd(k, fd) => EnvOpView::SetFd(k@, *fd),
            EnvOp::Remove(k) => EnvOpView::Remove(k@),
        }
    }
}

/// The command that starts the wrapped client.
#[derive(Debug)]
pub struct ChildCommand {
    /// the program
    pub program: String,
    /// its arguments
    pub args: Vec<String>,
    /// changes to its environment, in order
    pub env: Vec<EnvOp>,
}

/// The environment changes of a child connected through file descriptor
/// `fd`: the given variables; then, unless the child asks for the
/// desktop's Wayland display, that display is removed; the child gets the
/// socket through `WAYLAND_SOCKET` and no `WAYLAND_DEBUG`.
pub open spec fn child_env(env_vars: Seq<(Seq<char>, Seq<char>)>, fd: i32, requests_wayland_display: bool) -> Seq<
    EnvOpView,
> {
    let sets = env_vars.map_values(|kv: (Seq<char>, Seq<char>)| EnvOpView::Assign(kv.0, kv.1));
    let display = if requests_wayland_display {
        Seq::empty()
    } else {
        seq![EnvOpView::Remove("WAYLAND_DISPLAY"@)]
    };
    sets + display + seq![
        EnvOpView::SetFd("WAYLAND_SOCKET"@, fd),
        EnvOpView::Remove("WAYLAND_DEBUG"@),
    ]
}

/// The names and values of a list of variables.
pub open spec fn var_views(vars: Seq<(String, String)>) -> Seq<(Seq<char>, Seq<char>)> {
    vars.map_values(|kv: (String, String)| (kv.0@, kv.1@))
}

/// The command for the words `words`: the first word is the program and the
/// rest its arguments, with the environment of `child_env`; no command when
/// there is no word.
pub open spec fn command_matches(
    cmd: Option<ChildCommand>,
    words: Seq<Seq<char>>,
    env_vars: Seq<(Seq<char>, Seq<char>)>,
    fd: i32,
    requests_wayland_display: bool,
) -> bool {
    match cmd {
        None => words.len() == 0,
        Some(c) => {
            &&& words.len() > 0
            &&& c.program@ == words[0]
            &&& word_views(c.args@) == words.drop_first()
            &&& c.env@.map_values(|e: EnvOp| e@) == child_env(env_vars, fd, requests_wayland_display)
        },
    }
}

/// The command that starts the wrapped client from its words (see
/// `command_matches`).
pub fn command_from_words(
    words: Vec<String>,
    fd: i32,
    env_vars: Vec<(String, String)>,
    requests_wayland_display: bool,
) -> (cmd: Option<ChildCommand>)
    ensures
        command_matches(cmd, word_views(words@), var_views(env_vars@), fd, requests_wayland_display),
{
    if words.len() == 0 {
        return None;
    }
    Some(build_command(words, fd, env_vars, requests_wayland_display))
}

/// The command for the words `words`, of which there is at least one.
fn build_command(
    words: Vec<String>,
    fd: i32,
    env_vars: Vec<(String, String)>,
    requests_wayland_display: bool,
) -> (cmd: ChildCommand)
    requires
        words@.len() > 0,
    ensures
        command_matches(Some(cmd), word_views(words@), var_views(env_vars@), fd, requests_wayland_display),
{
    let ghost ws = word_views(words@);
    let ghost vars = var_views(env_vars@);
    let mut words = words;
    let program = words.remove(0);
    proof {
        assert(word_views(words@) =~= ws.drop_first());
    }
    let mut env: Vec<EnvOp> = Vec::new();
    let n = env_vars.len();
    let mut i: usize = 0;
    while i < n
        invariant
            i <= n,
            n == env_vars@.len(),
            vars == var_views(env_vars@),
            env@.map_values(|e: EnvOp| e@) == vars.subrange(0, i as int).map_values(
                |kv: (Seq<char>, Seq<char>)| EnvOpView::Assign(kv.0, kv.1),
            ),
        decreases n - i,
    {
        let k = env_vars[i].0.clone();
        let v = env_vars[i].1.clone();
        let ghost before = env@;
        env.push(EnvOp::Assign(k, v));
        proof {
            assert(k@ == vars[i as int].0 && v@ == vars[i as int].1);
            assert(env@ == before.push(EnvOp::Assign(k, v)));
            assert(env@.map_values(|e: EnvOp| e@) =~= before.map_values(|e: EnvOp| e@).push(
                EnvOpView::Assign(k@, v@),
            ));
            assert(vars.subrange(0, i + 1) =~= vars.subrange(0, i as int).push(vars[i as int]));
            assert(env@.map_values(|e: EnvOp| e@) =~= vars.subrange(0, i + 1).map_values(
                |kv: (Seq<char>, Seq<char>)| EnvOpView::Assign(kv.0, kv.1),
            ));
        }
        i = i + 1;
    }
    proof {
        assert(vars.subrange(0, n as int) =~= vars);
    }
    let ghost sets = env@.map_values(|e: EnvOp| e@);
    if !requests_wayland_display {
        env.push(EnvOp::Remove("WAYLAND_DISPLAY".to_owned()));
    }
    env.push(EnvOp::SetFd("WAYLAND_SOCKET".to_owned(), fd));
    env.push(EnvOp::Remove("WAYLAND_DEBUG".to_owned()));
    proof {
        assert(env@.map_values(|e: EnvOp| e@) =~= child_env(vars, fd, requests_wayland_display));
    }
    ChildCommand { program, args: words, env }
}

/// The command that starts the wrapped client from the shell-quoted
/// command string `c`, which holds at least one word (see
/// `command_matches`, over the words of `c`).
pub fn exec_child(c: &str, fd: i32, env_vars: Vec<(String, String)>, requests_wayland_display: bool) -> (cmd:
    ChildCommand)
    requires
        shlex_words(c@).len() > 0,
    ensures
        command_matches(Some(cmd), shlex_words(c@), var_views(env_vars@), fd, requests_wayland_display),
{
    let words = shell_words(c);
    build_command(words, fd, env_vars, requests_wayland_display)
}

/// The command that starts the wrapped client from the shell-quoted
/// command string `c` (see `exec_child`), or `None` when `c` holds no word,
/// where no command can be started.
pub fn try_exec_child(c: &str, fd: i32, env_vars: Vec<(String, String)>, requests_wayland_display: bool) -> (cmd:
    Option<ChildCommand>)
    ensures
        command_matches(cmd, shlex_words(c@), var_views(env_vars@), fd, requests_wayland_display),
{
    let words = shell_words(c);
    if words.len() == 0 {
        return None;
    }
    Some(exec_child(c, fd, env_vars, requests_wayland_display))
}

/// What the wrapper's command line asks for.
#[derive(Debug)]
pub enum LaunchArgs {
    /// load the stored profile of this name
    Profile(String),
    /// wrap this shell-quoted command
    Exec(String),
    /// print the usage and exit with status 1
    Usage,
}

/// The command line asks for a profile with `--profile` or `-p` and its
/// name, or for the command given as the first argument.
pub open spec fn launch_args_spec(args: Seq<Seq<char>>, res: LaunchArgs) -> bool {
    if args.len() < 2 {
        res is Usage
    } else if args[1] == "--profile"@ || args[1] == "-p"@ {
        if args.len() < 3 {
            res is Usage
        } else {
            res matches LaunchArgs::Profile(p) && p@ == args[2]
        }
    } else {
        res matches LaunchArgs::Exec(e) && e@ == args[1]
    }
}

/// Reads the wrapper's command line `args` (the program name first).
pub fn parse_args(args: &Vec<String>) -> (res: LaunchArgs)
    ensures
        launch_args_spec(word_views(args@), res),
{
    if args.len() < 2 {
        return LaunchArgs::Usage;
    }
    let a = args[1].clone();
    if a == "--profile".to_owned() || a == "-p".to_owned() {
        if args.len() < 3 {
            LaunchArgs::Usage
        } else {
            LaunchArgs::Profile(args[2].clone())
        }
    } else {
        LaunchArgs::Exec(a)
    }
}

/// The pause of the single-surface main loop after `iter_since_render`
/// iterations without a render: 8 ms up to 120, 32 ms up to 600, 128 ms up
/// to 3000, none right after a render or after 3000.
pub open spec fn render_loop_pause_spec(iter_since_render: i32) -> Option<u64> {
    if iter_since_render > 0 && iter_since_render < 120 {
        Some(8)
    } else if iter_since_render > 0 && iter_since_render < 600 {
        Some(32)
    } else if iter_since_render > 0 && iter_since_render < 3000 {
        Some(128)
    } else {
        None
    }
}

/// The pause of the single-surface main loop, in milliseconds.
pub fn render_loop_pause(iter_since_render: i32) -> (res: Option<u64>)
    ensures
        res == render_loop_pause_spec(iter_since_render),
{
    if iter_since_render > 0 && iter_since_render < 120 {
        Some(8)
    } else if iter_since_render > 0 && iter_since_render < 600 {
        Some(32)
    } else if iter_since_render > 0 && iter_since_render < 3000 {
        Some(128)
    } else {
        None
    }
}

/// The iteration count at the start of the next loop iteration: one more,
/// held to 0 ..= 99999.
pub fn next_iteration(iter_since_render: i32) -> (res: i32)
    ensures
        res == if iter_since_render + 1 < 0 {
            0
        } else if iter_since_render + 1 > 99999 {
            99999
        } else {
            iter_since_render + 1
        },
{
    if iter_since_render >= 99999 {
        99999
    } else if iter_since_render < -1 {
        0
    } else {
        iter_since_render + 1
    }
}

/// The pause of the renderer main loop when the last change was
/// `millis_since_dirty` milliseconds ago: 8 ms under 120, 32 ms under 600,
/// 128 ms under 3000, none after that.
pub open spec fn idle_pause_spec(millis_since_dirty: u64) -> Option<u64> {
    if millis_since_dirty < 120 {
        Some(8)
    } else if millis_since_dirty < 600 {
        Some(32)
    } else if millis_since_dirty < 3000 {
        Some(128)
    } else {
        None
    }
}

/// The pause of the renderer main loop, in milliseconds.
pub fn idle_pause(millis_since_dirty: u64) -> (res: Option<u64>)
    ensures
        res == idle_pause_spec(millis_since_dirty),
{
    if millis_since_dirty < 120 {
        Some(8)
    } else if millis_since_dirty < 600 {
        Some(32)
    } else if millis_since_dirty < 3000 {
        Some(128)
    } else {
        None
    }
}

/// Milliseconds between two cleanups of the popup manager.
pub const POPUP_CLEANUP_MILLIS: u64 = 300000;

/// The popup manager is cleaned up once more than five minutes passed since
/// the last cleanup.
pub fn popup_cleanup_due(millis_since_cleanup: u64) -> (res: bool)
    ensures
        res == (millis_since_cleanup > POPUP_CLEANUP_MILLIS),
{
    millis_since_cleanup > POPUP_CLEANUP_MILLIS
}

/// The pause of the space main loop: 100 ms while the space is hidden.
pub fn hidden_pause(hidden: bool) -> (res: Option<u64>)
    ensures
        res == if hidden {
            Some(100u64)
        } else {
            None
        },
{
    if hidden {
        Some(100)
    } else {
        None
    }
}

} // verus!
