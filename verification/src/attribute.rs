//! The command-attribute registry and the key-shape queries over it.
//!
//! Every supported command carries a `CmdAttr` describing where its keys sit
//! in the argument vector (`first_key`, `last_key`, `step`), whether it
//! writes, and the arity the protocol documents for it. The registry also
//! holds a small rewrite table for commands whose storage-level name differs
//! from their protocol-level name.

use vstd::prelude::*;

use crate::bytes_eq;
use crate::clone_bytes;
use crate::errors::CommandError;

verus! {

/// Classification tag of a command: commands not registered, or registered
/// with any tag other than `Readonly`, are treated as writes.
#[derive(Clone, Copy, Debug, PartialEq, Eq)]
pub enum CmdFlag {
    Write,
    Readonly,
}

/// Key-shape metadata of one registered command.
#[derive(Clone, Debug, PartialEq, Eq)]
pub struct CmdAttr {
    /// Canonical command identifier, as the bytes that arrive on the wire.
    pub name: Vec<u8>,
    /// Documented argument count (informational; not enforced here).
    pub arity: i32,
    /// Whether the command writes to the store.
    pub flags: CmdFlag,
    /// Position of the first key in the argument vector, 0-based after the name.
    pub first_key: i32,
    /// Position of the last key; `-1` means a variable number of key groups.
    pub last_key: i32,
    /// Width of one key group in arguments.
    pub step: i32,
}

/// One entry of the rewrite table: a protocol-level command name and the
/// storage-level name it is translated to before reaching the store.
#[derive(Clone, Debug, PartialEq, Eq)]
pub struct RewriteEntry {
    pub from: Vec<u8>,
    pub to: Vec<u8>,
}

/// The command has exactly one key, at position 1 (the majority case).
pub open spec fn is_single_key(a: CmdAttr) -> bool {
    a.first_key == 1 && a.last_key == 1
}

/// The command touches no key at all.
pub open spec fn is_keyless(a: CmdAttr) -> bool {
    a.first_key == 0
}

/// The command takes a variable number of key groups starting at position 1,
/// each `step` arguments wide.
pub open spec fn is_variable_multi_key(a: CmdAttr) -> bool {
    a.first_key == 1 && a.last_key == -1 && a.step >= 1
}

/// The command takes a fixed number of distinct keys greater than one; the
/// decomposer cannot split such a shape.
pub open spec fn is_fixed_multi_key(a: CmdAttr) -> bool {
    a.first_key != 0 && a.last_key != a.first_key && a.last_key > 0
}

/// A registered attribute is well shaped when it falls under one of the four
/// key shapes; anything else is a configuration error caught when the
/// registry is built.
pub open spec fn shape_ok(a: CmdAttr) -> bool {
    is_single_key(a) || is_keyless(a) || is_variable_multi_key(a) || is_fixed_multi_key(a)
}

/// How many of the four key shapes an attribute falls under.
pub open spec fn shape_count(a: CmdAttr) -> int {
    (if is_single_key(a) { 1int } else { 0int })
    + (if is_keyless(a) { 1int } else { 0int })
    + (if is_variable_multi_key(a) { 1int } else { 0int })
    + (if is_fixed_multi_key(a) { 1int } else { 0int })
}

/// Law: the four key shapes are pairwise disjoint, so a well-shaped attribute
/// falls under exactly one of keyless, single-key, variable-multi-key and
/// fixed-multi-key.
pub proof fn lemma_shape_partition(a: CmdAttr)
    ensures
        shape_count(a) <= 1,
        shape_ok(a) <==> shape_count(a) == 1,
{
}

/// Law: in a registry whose entries all passed shape validation, every
/// command is classified into exactly one of the four shape categories.
pub proof fn lemma_registry_partition(reg: Registry)
    requires
        forall|i: int| 0 <= i < reg.attrs@.len() ==> shape_ok(#[trigger] reg.attrs@[i]),
    ensures
        forall|i: int| 0 <= i < reg.attrs@.len() ==> shape_count(#[trigger] reg.attrs@[i]) == 1,
{
}

/// The name of the introspection command, which is keyless by nature and
/// always supported.
pub open spec fn command_name() -> Seq<u8> {
    seq![99u8, 111u8, 109u8, 109u8, 97u8, 110u8, 100u8]
}

/// A command the decomposition engine cannot route: keyless (except the
/// introspection command itself) or fixed multi-key.
pub open spec fn is_unsupported(a: CmdAttr) -> bool {
    (is_keyless(a) && a.name@ != command_name()) || is_fixed_multi_key(a)
}

/// The first `name` in `attrs`, if any: the registry keeps one attribute per
/// command name, so at most one entry can match.
pub open spec fn lookup_in(attrs: Seq<CmdAttr>, name: Seq<u8>) -> Option<CmdAttr>
    decreases attrs.len(),
{
    if attrs.len() == 0 {
        None
    } else if attrs[0].name@ == name {
        Some(attrs[0])
    } else {
        lookup_in(attrs.drop_first(), name)
    }
}

/// The storage-level name `name` is rewritten to, if the table has an entry
/// for it.
pub open spec fn rewrite_in(entries: Seq<RewriteEntry>, name: Seq<u8>) -> Option<Seq<u8>>
    decreases entries.len(),
{
    if entries.len() == 0 {
        None
    } else if entries[0].from@ == name {
        Some(entries[0].to@)
    } else {
        rewrite_in(entries.drop_first(), name)
    }
}

/// Whatever a lookup returns is one of the registry's entries, so a fact that
/// holds of every entry holds of every lookup result.
pub proof fn lemma_lookup_is_registered(attrs: Seq<CmdAttr>, name: Seq<u8>)
    requires
        lookup_in(attrs, name) matches Some(_),
    ensures
        lookup_in(attrs, name) matches Some(a) && attrs.contains(a),
    decreases attrs.len(),
{
    if attrs.len() > 0 {
        if attrs[0].name@ == name {
            assert(attrs.contains(attrs[0]));
        } else {
            lemma_lookup_is_registered(attrs.drop_first(), name);
            let a = choose|a: CmdAttr| lookup_in(attrs.drop_first(), name) == Some(a);
            let j = choose|j: int|
                0 <= j < attrs.drop_first().len() && attrs.drop_first()[j] == a;
            assert(attrs[j + 1] == a);
        }
    }
}

/// The command-attribute registry: one attribute per supported command name,
/// plus the rewrite table. Built once at startup, read-only afterwards.
#[derive(Debug, Clone, PartialEq, Eq)]
pub struct Registry {
    pub attrs: Vec<CmdAttr>,
    pub rewrites: Vec<RewriteEntry>,
}

proof fn lemma_lookup_in_step(attrs: Seq<CmdAttr>, name: Seq<u8>, i: int)
    requires
        0 <= i < attrs.len(),
        attrs[i].name@ != name,
    ensures
        lookup_in(attrs.skip(i), name) == lookup_in(attrs.skip(i + 1), name),
{
    assert(attrs.skip(i)[0] == attrs[i]);
    assert(attrs.skip(i).drop_first() =~= attrs.skip(i + 1));
}

proof fn lemma_rewrite_in_step(entries: Seq<RewriteEntry>, name: Seq<u8>, i: int)
    requires
        0 <= i < entries.len(),
        entries[i].from@ != name,
    ensures
        rewrite_in(entries.skip(i), name) == rewrite_in(entries.skip(i + 1), name),
{
    assert(entries.skip(i)[0] == entries[i]);
    assert(entries.skip(i).drop_first() =~= entries.skip(i + 1));
}

impl Registry {
    /// The attribute registered under `name`, if any.
    pub open spec fn spec_lookup(self, name: Seq<u8>) -> Option<CmdAttr> {
        lookup_in(self.attrs@, name)
    }

    /// The storage-level name `name` must be rewritten to, if any.
    pub open spec fn spec_rewrite_target(self, name: Seq<u8>) -> Option<Seq<u8>> {
        rewrite_in(self.rewrites@, name)
    }

    /// Builds a registry, validating every entry's key shape eagerly: an
    /// entry matching none of the four shapes fails construction with
    /// `UnsupportedShape`, naming the first such entry.
    pub fn new(attrs: Vec<CmdAttr>, rewrites: Vec<RewriteEntry>) -> (r: Result<Registry, CommandError>)
        ensures
            (forall|i: int| 0 <= i < attrs@.len() ==> shape_ok(#[trigger] attrs@[i]))
                ==> (r matches Ok(reg) && reg.attrs@ == attrs@ && reg.rewrites@ == rewrites@),
            !(forall|i: int| 0 <= i < attrs@.len() ==> shape_ok(#[trigger] attrs@[i]))
                ==> (r matches Err(e) && (e matches CommandError::UnsupportedShape(n)
                    && (exists|i: int| 0 <= i < attrs@.len()
                        && !shape_ok(#[trigger] attrs@[i])
                        && n@ == attrs@[i].name@
                        && (forall|j: int| 0 <= j < i ==> shape_ok(#[trigger] attrs@[j]))))),
    {
        let mut i: usize = 0;
        while i < attrs.len()
            invariant
                0 <= i <= attrs@.len(),
                forall|j: int| 0 <= j < i ==> shape_ok(#[trigger] attrs@[j]),
            decreases attrs@.len() - i,
        {
            if !shape_ok_exec(&attrs[i]) {
                return Err(CommandError::UnsupportedShape(clone_bytes(attrs[i].name.as_slice())));
            }
            i += 1;
        }
        Ok(Registry { attrs, rewrites })
    }

    /// The registered attribute of `name`, if any.
    pub fn lookup(&self, name: &[u8]) -> (r: Option<&CmdAttr>)
        ensures
            match r {
                Some(a) => self.spec_lookup(name@) == Some(*a),
                None => self.spec_lookup(name@) is None,
            },
    {
        let mut i: usize = 0;
        proof {
            assert(self.attrs@.skip(0) =~= self.attrs@);
        }
        while i < self.attrs.len()
            invariant
                0 <= i <= self.attrs@.len(),
                lookup_in(self.attrs@, name@) == lookup_in(self.attrs@.skip(i as int), name@),
            decreases self.attrs@.len() - i,
        {
            if bytes_eq(self.attrs[i].name.as_slice(), name) {
                proof {
                    assert(self.attrs@.skip(i as int)[0] == self.attrs@[i as int]);
                }
                return Some(&self.attrs[i]);
            }
            proof {
                lemma_lookup_in_step(self.attrs@, name@, i as int);
            }
            i += 1;
        }
        proof {
            assert(self.attrs@.skip(i as int) =~= Seq::<CmdAttr>::empty());
        }
        None
    }

    /// The storage-level name `name` must be rewritten to before it reaches
    /// the store, if the rewrite table has an entry for it.
    pub fn rewrite_target(&self, name: &[u8]) -> (r: Option<&Vec<u8>>)
        ensures
            match r {
                Some(t) => self.spec_rewrite_target(name@) == Some(t@),
                None => self.spec_rewrite_target(name@) is None,
            },
    {
        let mut i: usize = 0;
        proof {
            assert(self.rewrites@.skip(0) =~= self.rewrites@);
        }
        while i < self.rewrites.len()
            invariant
                0 <= i <= self.rewrites@.len(),
                rewrite_in(self.rewrites@, name@) == rewrite_in(self.rewrites@.skip(i as int), name@),
            decreases self.rewrites@.len() - i,
        {
            if bytes_eq(self.rewrites[i].from.as_slice(), name) {
                proof {
                    assert(self.rewrites@.skip(i as int)[0] == self.rewrites@[i as int]);
                }
                return Some(&self.rewrites[i].to);
            }
            proof {
                lemma_rewrite_in_step(self.rewrites@, name@, i as int);
            }
            i += 1;
        }
        proof {
            assert(self.rewrites@.skip(i as int) =~= Seq::<RewriteEntry>::empty());
        }
        None
    }
}

/// Whether an attribute falls under one of the four key shapes.
pub fn shape_ok_exec(a: &CmdAttr) -> (r: bool)
    ensures
        r == shape_ok(*a),
{
    (a.first_key == 1 && a.last_key == 1)
        || a.first_key == 0
        || (a.first_key == 1 && a.last_key == -1 && a.step >= 1)
        || (a.first_key != 0 && a.last_key != a.first_key && a.last_key > 0)
}

/// The views of a sequence of byte vectors.
pub open spec fn vv(s: Seq<Vec<u8>>) -> Seq<Seq<u8>> {
    s.map_values(|v: Vec<u8>| v@)
}

/// The introspection command's name as a value.
fn command_name_exec() -> (r: Vec<u8>)
    ensures
        r@ == command_name(),
{
    let mut r: Vec<u8> = Vec::new();
    r.push(99u8);
    r.push(111u8);
    r.push(109u8);
    r.push(109u8);
    r.push(97u8);
    r.push(110u8);
    r.push(100u8);
    proof {
        assert(r@ =~= command_name());
    }
    r
}

/// Every registered command the routing engine cannot serve: keyless
/// commands other than the introspection command, and fixed multi-key
/// commands, in registry order.
pub fn get_not_supported_cmds(reg: &Registry) -> (r: Vec<Vec<u8>>)
    ensures
        vv(r@) == reg.attrs@.filter(|a: CmdAttr| is_unsupported(a)).map_values(|a: CmdAttr| a.name@),
{
    let introspection = command_name_exec();
    let mut r: Vec<Vec<u8>> = Vec::new();
    let ghost pred = |a: CmdAttr| is_unsupported(a);
    let mut i: usize = 0;
    while i < reg.attrs.len()
        invariant
            0 <= i <= reg.attrs@.len(),
            introspection@ == command_name(),
            vv(r@) == reg.attrs@.take(i as int).filter(pred).map_values(|a: CmdAttr| a.name@),
            pred == (|a: CmdAttr| is_unsupported(a)),
        decreases reg.attrs@.len() - i,
    {
        let a = &reg.attrs[i];
        let unsupported = (a.first_key == 0 && !bytes_eq(a.name.as_slice(), introspection.as_slice()))
            || (a.first_key != 0 && a.last_key != a.first_key && a.last_key > 0);
        proof {
            assert(unsupported == pred(reg.attrs@[i as int]));
        }
        if unsupported {
            r.push(clone_bytes(a.name.as_slice()));
        }
        proof {
            lemma_classifier_step(reg.attrs@, pred, i as int);
            if pred(reg.attrs@[i as int]) {
                assert(vv(r@) =~= reg.attrs@.take(i as int).filter(pred).map_values(|a: CmdAttr| a.name@)
                    .push(reg.attrs@[i as int].name@));
                assert(vv(r@) =~= reg.attrs@.take(i + 1).filter(pred).map_values(|a: CmdAttr| a.name@));
            } else {
                assert(vv(r@) =~= reg.attrs@.take(i + 1).filter(pred).map_values(|a: CmdAttr| a.name@));
            }
        }
        i += 1;
    }
    proof {
        assert(reg.attrs@.take(i as int) =~= reg.attrs@);
    }
    r
}

/// How one classification step extends the filtered name list.
proof fn lemma_classifier_step(attrs: Seq<CmdAttr>, pred: spec_fn(CmdAttr) -> bool, i: int)
    requires
        0 <= i < attrs.len(),
    ensures
        attrs.take(i + 1).filter(pred).map_values(|a: CmdAttr| a.name@) == if pred(attrs[i]) {
            attrs.take(i).filter(pred).map_values(|a: CmdAttr| a.name@).push(attrs[i].name@)
        } else {
            attrs.take(i).filter(pred).map_values(|a: CmdAttr| a.name@)
        },
{
    assert(attrs.take(i + 1) =~= attrs.take(i).push(attrs[i]));
    attrs.take(i).lemma_filter_push(attrs[i], pred);
    if pred(attrs[i]) {
        assert(attrs.take(i).filter(pred).push(attrs[i]).map_values(|a: CmdAttr| a.name@)
            =~= attrs.take(i).filter(pred).map_values(|a: CmdAttr| a.name@).push(attrs[i].name@));
    }
}

/// Every registered command with exactly one key at position 1, in registry
/// order.
pub fn get_single_key_cmds(reg: &Registry) -> (r: Result<Vec<Vec<u8>>, CommandError>)
    ensures
        r matches Ok(cmds) && vv(cmds@) == reg.attrs@.filter(|a: CmdAttr| is_single_key(a)).map_values(
            |a: CmdAttr| a.name@,
        ),
{
    let mut r: Vec<Vec<u8>> = Vec::new();
    let ghost pred = |a: CmdAttr| is_single_key(a);
    let mut i: usize = 0;
    while i < reg.attrs.len()
        invariant
            0 <= i <= reg.attrs@.len(),
            vv(r@) == reg.attrs@.take(i as int).filter(pred).map_values(|a: CmdAttr| a.name@),
            pred == (|a: CmdAttr| is_single_key(a)),
        decreases reg.attrs@.len() - i,
    {
        let a = &reg.attrs[i];
        if a.first_key == 1 && a.last_key == 1 {
            r.push(clone_bytes(a.name.as_slice()));
        }
        proof {
            lemma_classifier_step(reg.attrs@, pred, i as int);
            if pred(reg.attrs@[i as int]) {
                assert(vv(r@) =~= reg.attrs@.take(i as int).filter(pred).map_values(|a: CmdAttr| a.name@)
                    .push(reg.attrs@[i as int].name@));
            }
            assert(vv(r@) =~= reg.attrs@.take(i + 1).filter(pred).map_values(|a: CmdAttr| a.name@));
        }
        i += 1;
    }
    proof {
        assert(reg.attrs@.take(i as int) =~= reg.attrs@);
    }
    Ok(r)
}

/// Every registered command that takes a variable number of key groups, in
/// registry order; an entry matching none of the four shapes is a
/// configuration error and fails the whole query.
pub fn get_optional_multi_key_cmds(reg: &Registry) -> (r: Result<Vec<Vec<u8>>, CommandError>)
    ensures
        (forall|i: int| 0 <= i < reg.attrs@.len() ==> shape_ok(#[trigger] reg.attrs@[i]))
            ==> (r matches Ok(cmds) && vv(cmds@) == reg.attrs@.filter(
                |a: CmdAttr| is_variable_multi_key(a),
            ).map_values(|a: CmdAttr| a.name@)),
        !(forall|i: int| 0 <= i < reg.attrs@.len() ==> shape_ok(#[trigger] reg.attrs@[i]))
            ==> (r matches Err(e) && (e matches CommandError::UnsupportedShape(n)
                && (exists|i: int| 0 <= i < reg.attrs@.len()
                    && !shape_ok(#[trigger] reg.attrs@[i])
                    && n@ == reg.attrs@[i].name@
                    && (forall|j: int| 0 <= j < i ==> shape_ok(#[trigger] reg.attrs@[j]))))),
{
    let mut r: Vec<Vec<u8>> = Vec::new();
    let ghost pred = |a: CmdAttr| is_variable_multi_key(a);
    let mut i: usize = 0;
    while i < reg.attrs.len()
        invariant
            0 <= i <= reg.attrs@.len(),
            vv(r@) == reg.attrs@.take(i as int).filter(pred).map_values(|a: CmdAttr| a.name@),
            pred == (|a: CmdAttr| is_variable_multi_key(a)),
            forall|j: int| 0 <= j < i ==> shape_ok(#[trigger] reg.attrs@[j]),
        decreases reg.attrs@.len() - i,
    {
        let a = &reg.attrs[i];
        let single = a.first_key == 1 && a.last_key == 1;
        let keyless = a.first_key == 0;
        let fixed = a.first_key != 0 && a.last_key != a.first_key && a.last_key > 0;
        let variable = a.first_key == 1 && a.last_key == -1 && a.step >= 1;
        if single || keyless || fixed {
            // classified elsewhere
        } else if variable {
            r.push(clone_bytes(a.name.as_slice()));
        } else {
            return Err(CommandError::UnsupportedShape(clone_bytes(a.name.as_slice())));
        }
        proof {
            lemma_shape_partition(reg.attrs@[i as int]);
            lemma_classifier_step(reg.attrs@, pred, i as int);
            if pred(reg.attrs@[i as int]) {
                assert(vv(r@) =~= reg.attrs@.take(i as int).filter(pred).map_values(|a: CmdAttr| a.name@)
                    .push(reg.attrs@[i as int].name@));
            }
            assert(vv(r@) =~= reg.attrs@.take(i + 1).filter(pred).map_values(|a: CmdAttr| a.name@));
        }
        i += 1;
    }
    proof {
        assert(reg.attrs@.take(i as int) =~= reg.attrs@);
    }
    Ok(r)
}

/// Whether `cmd` must be treated as a write for routing and caching
/// decisions: `false` exactly when the command is registered with the
/// `Readonly` tag, `true` for every other registered tag and for every
/// unregistered name (the conservative default).
pub open spec fn spec_is_write_command(reg: Registry, cmd: Seq<u8>) -> bool {
    match reg.spec_lookup(cmd) {
        Some(a) => !(a.flags is Readonly),
        None => true,
    }
}

/// Whether `cmd` must be treated as a write; unregistered names default to
/// `true`.
pub fn is_write_command(reg: &Registry, cmd: &[u8]) -> (r: bool)
    ensures
        r == spec_is_write_command(*reg, cmd@),
        !r <==> (reg.spec_lookup(cmd@) matches Some(a) && a.flags is Readonly),
{
    match reg.lookup(cmd) {
        Some(a) => match a.flags {
            CmdFlag::Readonly => false,
            CmdFlag::Write => true,
        },
        None => true,
    }
}

} // verus!
