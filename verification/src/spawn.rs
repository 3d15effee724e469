use vstd::prelude::*;

verus! {

/// Everything the embedding needs to construct and spawn the child process
/// attached to the pseudo-terminal's slave side: program, arguments, an
/// optional working directory, and the full environment, in order.
pub struct CommandPlan {
    pub program: String,
    pub args: Vec<String>,
    pub cwd: Option<String>,
    pub env: Vec<(String, String)>,
}

/// Whether an inherited environment variable is passed through: everything
/// but the two names the spawn protocol pins.
pub open spec fn keeps_inherited(key: Seq<char>) -> bool {
    key != "TERM"@ && key != "LC_ALL"@
}

/// The view of an environment pair list: each pair as its character
/// sequences.
pub open spec fn env_view(pairs: Seq<(String, String)>) -> Seq<(Seq<char>, Seq<char>)> {
    pairs.map_values(|kv: (String, String)| (kv.0@, kv.1@))
}

/// The two variables the spawn protocol pins to fixed, known-good values.
pub open spec fn pinned_env() -> Seq<(Seq<char>, Seq<char>)> {
    seq![("TERM"@, "xterm-256color"@), ("LC_ALL"@, "en_US.UTF-8"@)]
}

/// The inherited variables that survive the merge, in their original order.
pub open spec fn kept_inherited(vars: Seq<(Seq<char>, Seq<char>)>) -> Seq<
    (Seq<char>, Seq<char>),
> {
    vars.filter(|kv: (Seq<char>, Seq<char>)| keeps_inherited(kv.0))
}

/// The environment a spawned child receives: the pinned terminal type and
/// locale first, then every inherited variable except those two names — so
/// the pinned values take precedence over anything inherited under the same
/// name.
pub open spec fn spec_command_env(vars: Seq<(Seq<char>, Seq<char>)>) -> Seq<
    (Seq<char>, Seq<char>),
> {
    pinned_env() + kept_inherited(vars)
}

/// Appending one inherited variable extends the merge's tail exactly when
/// its name is not pinned.
proof fn lemma_kept_inherited_step(vars: Seq<(Seq<char>, Seq<char>)>, x: (Seq<char>, Seq<char>))
    ensures
        keeps_inherited(x.0) ==> kept_inherited(vars + seq![x]) == kept_inherited(vars).push(x),
        !keeps_inherited(x.0) ==> kept_inherited(vars + seq![x]) == kept_inherited(vars),
{
    broadcast use vstd::prelude::Seq::filter_distributes_over_add;

    reveal_with_fuel(Seq::filter, 3);
    assert(seq![x].drop_last() =~= Seq::<(Seq<char>, Seq<char>)>::empty());
    assert(kept_inherited(vars + seq![x]) == kept_inherited(vars) + kept_inherited(seq![x]));
    if keeps_inherited(x.0) {
        assert(kept_inherited(seq![x]) =~= seq![x]);
        assert(kept_inherited(vars + seq![x]) =~= kept_inherited(vars).push(x));
    } else {
        assert(kept_inherited(seq![x]) =~= Seq::<(Seq<char>, Seq<char>)>::empty());
        assert(kept_inherited(vars + seq![x]) =~= kept_inherited(vars));
    }
}

/// Build the child environment from the caller's inherited variables.
pub fn command_env(vars: Vec<(String, String)>) -> (r: Vec<(String, String)>)
    ensures
        env_view(r@) == spec_command_env(env_view(vars@)),
{
    let ghost gv = env_view(vars@);
    let term_key: String = "TERM".to_owned();
    let lc_key: String = "LC_ALL".to_owned();
    let mut out: Vec<(String, String)> = Vec::new();
    out.push(("TERM".to_owned(), "xterm-256color".to_owned()));
    out.push(("LC_ALL".to_owned(), "en_US.UTF-8".to_owned()));
    proof {
        reveal_with_fuel(Seq::filter, 2);
        assert(gv.take(0) =~= Seq::<(Seq<char>, Seq<char>)>::empty());
        assert(kept_inherited(gv.take(0)) =~= Seq::<(Seq<char>, Seq<char>)>::empty());
        assert(env_view(out@) =~= spec_command_env(gv.take(0)));
    }
    let mut i: usize = 0;
    while i < vars.len()
        invariant
            i <= vars@.len(),
            gv == env_view(vars@),
            term_key@ == "TERM"@,
            lc_key@ == "LC_ALL"@,
            env_view(out@) == spec_command_env(gv.take(i as int)),
        decreases vars@.len() - i,
    {
        let ghost prev = out@;
        let keep = !(vars[i].0 == term_key) && !(vars[i].0 == lc_key);
        if keep {
            out.push((vars[i].0.clone(), vars[i].1.clone()));
        }
        proof {
            let x = gv[i as int];
            assert(x == (vars@[i as int].0@, vars@[i as int].1@));
            assert(keep == keeps_inherited(x.0));
            assert(gv.take(i + 1) =~= gv.take(i as int) + seq![x]);
            lemma_kept_inherited_step(gv.take(i as int), x);
            if keep {
                assert(env_view(out@) =~= env_view(prev).push(x));
            }
            assert(env_view(out@) =~= spec_command_env(gv.take(i + 1)));
        }
        i += 1;
    }
    proof {
        assert(gv.take(vars@.len() as int) =~= gv);
    }
    out
}

/// The plan for an interactive-shell session: the interactive login shell
/// with its interactive flag, no working-directory override, and the pinned
/// environment.
pub fn shell_spawn_command(vars: Vec<(String, String)>) -> (p: CommandPlan)
    ensures
        p.program@ == "zsh"@,
        p.args@.len() == 1,
        p.args@[0]@ == "-i"@,
        p.cwd is None,
        env_view(p.env@) == spec_command_env(env_view(vars@)),
{
    let mut args: Vec<String> = Vec::new();
    args.push("-i".to_owned());
    CommandPlan { program: "zsh".to_owned(), args, cwd: None, env: command_env(vars) }
}

/// The plan for an explicit-command session: the given program, arguments
/// and working directory, and the pinned environment.
pub fn explicit_spawn_command(
    working_dir: String,
    command: String,
    args: Vec<String>,
    vars: Vec<(String, String)>,
) -> (p: CommandPlan)
    ensures
        p.program == command,
        p.args == args,
        p.cwd matches Some(d) && d == working_dir,
        env_view(p.env@) == spec_command_env(env_view(vars@)),
{
    CommandPlan { program: command, args, cwd: Some(working_dir), env: command_env(vars) }
}

} // verus!
