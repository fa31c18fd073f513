//! The multi-key decomposer: given a command's full argument vector, either
//! pass it through unchanged or split it into one single-key sub-command per
//! key group, preserving the shared prefix, so that the storage layer only
//! ever receives shapes it understands.

use vstd::prelude::*;
use vstd::arithmetic::div_mod::lemma_div_pos_is_pos;
use vstd::arithmetic::div_mod::lemma_fundamental_div_mod;
use vstd::arithmetic::div_mod::lemma_fundamental_div_mod_converse;
use vstd::arithmetic::div_mod::lemma_mod_division_less_than_divisor;

use crate::attribute::CmdAttr;
use crate::attribute::Registry;
use crate::attribute::is_single_key;
use crate::attribute::is_variable_multi_key;
use crate::attribute::vv;
use crate::clone_bytes;
use crate::errors::CommandError;

verus! {

/// The views of a sequence of sub-commands.
pub open spec fn vvv(s: Seq<Vec<Vec<u8>>>) -> Seq<Seq<Seq<u8>>> {
    s.map_values(|v: Vec<Vec<u8>>| vv(v@))
}

/// The argument vector with its first element replaced by the storage-level
/// name the rewrite table maps it to, if it maps it at all. Applied once,
/// before decomposition.
pub open spec fn spec_rewrite(reg: Registry, argv: Seq<Seq<u8>>) -> Seq<Seq<u8>> {
    match reg.spec_rewrite_target(argv[0]) {
        Some(t) => argv.update(0, t),
        None => argv,
    }
}

/// An argument vector of length `n` needs no splitting: no keys follow the
/// fixed prefix, or at most one key group does.
pub open spec fn passthrough_case(a: CmdAttr, n: int) -> bool {
    n <= a.first_key + 1 || n - a.first_key <= a.step
}

/// How many whole key groups the trailing arguments hold.
pub open spec fn group_count(a: CmdAttr, n: int) -> int {
    (n - a.first_key) / (a.step as int)
}

/// The `j`-th sub-command: the shared prefix of length `f` followed by the
/// `j`-th stride of `s` arguments.
pub open spec fn spec_sub(argv: Seq<Seq<u8>>, f: int, s: int, j: int) -> Seq<Seq<u8>> {
    argv.take(f) + argv.subrange(f + j * s, f + j * s + s)
}

/// The `m`-th trailing argument of `argv`, counting from the end of the
/// fixed prefix of length `f`.
pub open spec fn trailing_arg(argv: Seq<Seq<u8>>, f: int, m: int) -> Seq<u8> {
    argv[f + m]
}

/// What decomposing an argument vector yields.
pub enum DecomposeOutcome {
    /// The command name is not registered.
    NotFound,
    /// The vector needs no splitting and is forwarded as it stands, rewrite
    /// applied.
    Passthrough(Seq<Seq<u8>>),
    /// The vector splits into one sub-command per key group, in stride order.
    Split(Seq<Seq<Seq<u8>>>),
    /// A key group is incomplete; carries the first dangling argument.
    Malformed(Seq<u8>),
}

/// The decomposition of `argv` against the registry: the single place that
/// fixes what the decomposer returns on every input.
pub open spec fn spec_decompose(reg: Registry, argv: Seq<Seq<u8>>) -> DecomposeOutcome {
    match reg.spec_lookup(argv[0]) {
        None => DecomposeOutcome::NotFound,
        Some(a) => {
            let rw = spec_rewrite(reg, argv);
            let n = argv.len() as int;
            let f = a.first_key as int;
            let s = a.step as int;
            if passthrough_case(a, n) {
                DecomposeOutcome::Passthrough(rw)
            } else if (n - f) % s == 0 {
                DecomposeOutcome::Split(Seq::new(group_count(a, n) as nat, |j: int| spec_sub(rw, f, s, j)))
            } else {
                DecomposeOutcome::Malformed(rw[f + group_count(a, n) * s])
            }
        },
    }
}

/// The stride walk is defined only when the command it resolves, if
/// registered, keeps its keys at a non-negative offset and, once arguments
/// extend past that offset by more than one, advances by a positive stride.
pub open spec fn stride_defined(look: Option<CmdAttr>, n: int) -> bool {
    match look {
        Some(a) => 0 <= a.first_key && (1 <= a.step || n <= a.first_key + 1),
        None => true,
    }
}

/// Splits a multi-key command into one sub-command per key group, or passes
/// it through unchanged when it holds at most one group. The rewrite table is
/// applied to the command name once, before anything else. Exactly one of the
/// two returned vectors is non-empty.
pub fn split_multikeys_command(reg: &Registry, multi: &Vec<Vec<u8>>) -> (r: Result<
    (Vec<Vec<u8>>, Vec<Vec<Vec<u8>>>),
    CommandError,
>)
    requires
        1 <= multi@.len(),
        stride_defined(reg.spec_lookup(multi@[0]@), multi@.len() as int),
    ensures
        match spec_decompose(*reg, vv(multi@)) {
            DecomposeOutcome::NotFound => (r matches Err(e) && (e matches CommandError::CommandNotFound(
                c,
            ) && c@ == multi@[0]@)),
            DecomposeOutcome::Passthrough(pt) => (r matches Ok(p) && vv(p.0@) == pt && p.1@.len()
                == 0),
            DecomposeOutcome::Split(subs) => (r matches Ok(p) && p.0@.len() == 0 && vvv(p.1@)
                == subs && p.1@.len() >= 2),
            DecomposeOutcome::Malformed(arg) => (r matches Err(e) && (e matches CommandError::MalformedArguments(
                b,
            ) && b@ == arg)),
        },
        r matches Ok(p) ==> ((p.0@.len() == 0) != (p.1@.len() == 0)),
{
    proof {
        assert(vv(multi@)[0] == multi@[0]@);
    }
    let attr = match reg.lookup(multi[0].as_slice()) {
        None => {
            return Err(CommandError::CommandNotFound(clone_bytes(multi[0].as_slice())));
        },
        Some(a) => a,
    };
    let ghost ga: CmdAttr = *attr;
    let fk: i32 = attr.first_key;
    let st: i32 = attr.step;
    assert(0 <= fk);

    // apply the rewrite table to the command name, on a local copy
    let ghost rw = spec_rewrite(*reg, vv(multi@));
    let mut argv: Vec<Vec<u8>> = Vec::new();
    match reg.rewrite_target(multi[0].as_slice()) {
        Some(t) => {
            argv.push(clone_bytes(t.as_slice()));
        },
        None => {
            argv.push(clone_bytes(multi[0].as_slice()));
        },
    }
    assert(rw.len() == multi@.len());
    assert(argv@[0]@ == rw[0]);
    let mut idx: usize = 1;
    while idx < multi.len()
        invariant
            1 <= idx <= multi@.len(),
            argv@.len() == idx,
            rw == spec_rewrite(*reg, vv(multi@)),
            rw.len() == multi@.len(),
            forall|q: int| 0 <= q < idx ==> argv@[q]@ == rw[q],
        decreases multi@.len() - idx,
    {
        argv.push(clone_bytes(multi[idx].as_slice()));
        proof {
            assert(rw[idx as int] == vv(multi@)[idx as int]);
        }
        idx += 1;
    }
    proof {
        assert(vv(argv@) =~= rw);
    }

    let n: usize = argv.len();
    let f: usize = fk as usize;

    // no keys present, or nothing after the fixed prefix
    if n <= f + 1 {
        return Ok((argv, Vec::new()));
    }

    // arguments extend past the prefix, so the stride is positive
    assert(1 <= st);
    let s: usize = st as usize;

    // exactly one key group: nothing to split
    if n - f <= s {
        return Ok((argv, Vec::new()));
    }

    let mut subs: Vec<Vec<Vec<u8>>> = Vec::new();
    let mut i: usize = f;
    let ghost mut j: int = 0;
    while i < n
        invariant
            reg.spec_lookup(vv(multi@)[0]) == Some(ga),
            ga.first_key == fk,
            ga.step == st,
            f as int == fk as int,
            s as int == st as int,
            1 <= s,
            rw == spec_rewrite(*reg, vv(multi@)),
            vv(argv@) == rw,
            n == argv@.len(),
            n == multi@.len(),
            n as int - f as int > s as int,
            i as int == f as int + j * (s as int),
            0 <= j,
            i <= n,
            subs@.len() == j,
            forall|q: int| 0 <= q < j ==> vvv(subs@)[q] == spec_sub(
                rw,
                fk as int,
                st as int,
                q,
            ),
        decreases n - i,
    {
        if n - i < s {
            // a key group is incomplete: report its first dangling argument
            proof {
                lemma_fundamental_div_mod_converse(
                    n as int - f as int,
                    s as int,
                    j,
                    n as int - i as int,
                );
            }
            return Err(CommandError::MalformedArguments(clone_bytes(argv[i].as_slice())));
        }
        let mut sub: Vec<Vec<u8>> = Vec::new();
        let mut t: usize = 0;
        while t < f
            invariant
                t <= f,
                f < n,
                n == argv@.len(),
                vv(argv@) == rw,
                sub@.len() == t,
                forall|q: int| 0 <= q < t ==> sub@[q]@ == rw[q],
            decreases f - t,
        {
            sub.push(clone_bytes(argv[t].as_slice()));
            t += 1;
        }
        let end: usize = i + s;
        let mut u: usize = i;
        while u < end
            invariant
                i <= u <= end,
                end == i + s,
                end <= n,
                n == argv@.len(),
                vv(argv@) == rw,
                f <= i,
                sub@.len() == f + (u - i),
                forall|q: int| 0 <= q < f ==> sub@[q]@ == rw[q],
                forall|q: int| f <= q < f + (u - i) ==> sub@[q]@ == rw[i + (q - f)],
            decreases end - u,
        {
            sub.push(clone_bytes(argv[u].as_slice()));
            u += 1;
        }
        proof {
            assert(vv(sub@) =~= spec_sub(rw, fk as int, st as int, j));
        }
        subs.push(sub);
        proof {
            assert((j + 1) * (s as int) == j * (s as int) + (s as int)) by (nonlinear_arith);
            assert forall|q: int| 0 <= q < j + 1 implies vvv(subs@)[q] == spec_sub(
                rw,
                fk as int,
                st as int,
                q,
            ) by {
            }
            j = j + 1;
        }
        i += s;
    }
    proof {
        lemma_fundamental_div_mod_converse(n as int - f as int, s as int, j, 0);
        assert(j >= 2) by (nonlinear_arith)
            requires
                j * (s as int) > (s as int),
                1 <= (s as int),
                0 <= j,
        ;
        assert(vvv(subs@) =~= Seq::new(group_count(ga, n as int) as nat, |q: int| spec_sub(
            rw,
            ga.first_key as int,
            ga.step as int,
            q,
        )));
    }
    Ok((Vec::new(), subs))
}

/// Checks that a command's argument vector maps to exactly one key group, by
/// decomposing it and inspecting the result's shape: more than one group, an
/// incomplete group, and an unknown name all fail.
pub fn check_multikey_command_arguments(reg: &Registry, multi: &Vec<Vec<u8>>) -> (r: Result<
    (),
    CommandError,
>)
    requires
        1 <= multi@.len(),
        stride_defined(reg.spec_lookup(multi@[0]@), multi@.len() as int),
    ensures
        match spec_decompose(*reg, vv(multi@)) {
            DecomposeOutcome::NotFound => (r matches Err(e) && (e matches CommandError::CommandNotFound(
                c,
            ) && c@ == multi@[0]@)),
            DecomposeOutcome::Passthrough(_) => r matches Ok(_),
            DecomposeOutcome::Split(subs) => (reg.spec_lookup(multi@[0]@) matches Some(a) && (r
                matches Err(e) && (e matches CommandError::MalformedArguments(b)
                && b@ == subs[1][a.first_key as int]))),
            DecomposeOutcome::Malformed(arg) => (r matches Err(e) && (e matches CommandError::MalformedArguments(
                b,
            ) && b@ == arg)),
        },
{
    proof {
        assert(vv(multi@)[0] == multi@[0]@);
    }
    let ghost look = reg.spec_lookup(multi@[0]@);
    let attr_first_key: usize = match reg.lookup(multi[0].as_slice()) {
        None => 0,
        Some(a) => a.first_key as usize,
    };
    match split_multikeys_command(reg, multi) {
        Err(e) => Err(e),
        Ok((_passthrough, sub_commands)) => {
            if sub_commands.len() == 0 {
                Ok(())
            } else {
                proof {
                    let a = choose|a: CmdAttr| look == Some(a);
                    let n = multi@.len() as int;
                    let f = a.first_key as int;
                    let s = a.step as int;
                    let gc = group_count(a, n);
                    assert(!passthrough_case(a, n));
                    assert(1 <= s);
                    assert((n - f) % s == 0);
                    lemma_div_pos_is_pos(n - f, s);
                    lemma_fundamental_div_mod(n - f, s);
                    assert(vvv(sub_commands@).len() >= 2);
                    assert(f + s + s <= n) by (nonlinear_arith)
                        requires
                            n - f == s * gc,
                            gc >= 2,
                            s >= 1,
                    ;
                    assert(vvv(sub_commands@)[1] == spec_sub(spec_rewrite(*reg, vv(multi@)), f, s, 1));
                    assert(vvv(sub_commands@)[1].len() == f + s);
                    assert(vvv(sub_commands@)[1] == vv(sub_commands@[1]@));
                }
                // more than one key group: the second group starts right
                // after the shared prefix of the second sub-command
                Err(CommandError::MalformedArguments(clone_bytes(
                    sub_commands[1][attr_first_key].as_slice(),
                )))
            }
        },
    }
}

/// Law: a single-key command with no rewrite entry, given an argument vector
/// that holds at most one key group, always decomposes to itself as
/// passthrough, never into sub-commands.
pub proof fn lemma_single_key_round_trip(reg: Registry, argv: Seq<Seq<u8>>)
    requires
        1 <= argv.len(),
        (reg.spec_lookup(argv[0]) matches Some(a) && is_single_key(a) && argv.len() <= 1
            + a.step),
        reg.spec_rewrite_target(argv[0]) is None,
    ensures
        spec_decompose(reg, argv) == DecomposeOutcome::Passthrough(argv),
{
}

/// Law: an unknown command name fails as not-found and yields no
/// sub-commands.
pub proof fn lemma_unknown_command(reg: Registry, argv: Seq<Seq<u8>>)
    requires
        reg.spec_lookup(argv[0]) is None,
    ensures
        spec_decompose(reg, argv) == DecomposeOutcome::NotFound,
{
}

/// Law: a variable-multi-key command whose trailing arguments extend past one
/// key group but do not fill whole groups fails as malformed.
pub proof fn lemma_dangling_arguments_malformed(reg: Registry, argv: Seq<Seq<u8>>)
    requires
        1 <= argv.len(),
        (reg.spec_lookup(argv[0]) matches Some(a) && is_variable_multi_key(a) && argv.len()
            - a.first_key > a.step && (argv.len() - a.first_key) % (a.step as int) != 0),
    ensures
        spec_decompose(reg, argv) matches DecomposeOutcome::Malformed(_),
{
}

/// Law: a variable-multi-key command with prefix length `f` and step `s`, not
/// subject to rewrite, given `f + k * s` arguments with `k >= 2`, splits into
/// exactly `k` sub-commands of length `f + s`, each sharing the input's
/// prefix, whose key groups reassemble the trailing arguments in order.
pub proof fn lemma_variable_multi_key_split(reg: Registry, argv: Seq<Seq<u8>>, k: int)
    requires
        1 <= argv.len(),
        (reg.spec_lookup(argv[0]) matches Some(a) && is_variable_multi_key(a) && argv.len()
            == a.first_key + k * a.step),
        k >= 2,
        reg.spec_rewrite_target(argv[0]) is None,
    ensures
        (spec_decompose(reg, argv) matches DecomposeOutcome::Split(subs) && (reg.spec_lookup(
            argv[0],
        ) matches Some(a) && {
            let f = a.first_key as int;
            let s = a.step as int;
            subs.len() == k && (forall|j: int|
                0 <= j < k ==> (#[trigger] subs[j]).len() == f + s) && (forall|j: int|
                0 <= j < k ==> (#[trigger] subs[j]).take(f) == argv.take(f)) && (forall|m: int|
                0 <= m < k * s ==> #[trigger] trailing_arg(argv, f, m) == subs[m / s][f + (m
                    % s)])
        })),
{
    let a = choose|a: CmdAttr| reg.spec_lookup(argv[0]) == Some(a);
    let n = argv.len() as int;
    let f = a.first_key as int;
    let s = a.step as int;
    assert(n == f + k * s);
    assert(k * s >= 2 * s && 2 * s > s) by (nonlinear_arith)
        requires
            k >= 2,
            s >= 1,
    ;
    assert(!passthrough_case(a, n));
    lemma_fundamental_div_mod_converse(n - f, s, k, 0);
    assert(group_count(a, n) == k);
    let subs = Seq::new(k as nat, |j: int| spec_sub(argv, f, s, j));
    assert(spec_rewrite(reg, argv) == argv);
    assert(spec_decompose(reg, argv) == DecomposeOutcome::Split(subs));
    assert forall|j: int| 0 <= j < k implies (#[trigger] subs[j]).len() == f + s && subs[j].take(
        f,
    ) == argv.take(f) by {
        assert(f + j * s + s <= n && 0 <= j * s) by (nonlinear_arith)
            requires
                0 <= j < k,
                s >= 1,
                n == f + k * s,
        ;
        assert(subs[j] == spec_sub(argv, f, s, j));
        assert(subs[j].len() == f + s);
        assert(subs[j].take(f) =~= argv.take(f));
    }
    assert forall|m: int| 0 <= m < k * s implies #[trigger] trailing_arg(argv, f, m) == subs[m
        / s][f + (m % s)] by {
        lemma_fundamental_div_mod(m, s);
        lemma_mod_division_less_than_divisor(m, s);
        let j0 = m / s;
        let r0 = m % s;
        assert(m == s * j0 + r0);
        assert(0 <= j0 && j0 < k) by (nonlinear_arith)
            requires
                m == s * j0 + r0,
                0 <= r0 < s,
                0 <= m < k * s,
                s >= 1,
        ;
        assert(f + j0 * s + s <= n && 0 <= j0 * s) by (nonlinear_arith)
            requires
                0 <= j0 < k,
                s >= 1,
                n == f + k * s,
        ;
        assert(subs[j0] == spec_sub(argv, f, s, j0));
        assert(subs[j0][f + r0] == argv.subrange(f + j0 * s, f + j0 * s + s)[r0]);
        assert(f + j0 * s + r0 == f + m) by (nonlinear_arith)
            requires
                m == s * j0 + r0,
        ;
    }
}

} // verus!
