//! Planning the function shims of a newly loaded crate.
//!
//! A relocation of the new crate that refers to a symbol neither inside the
//! crate nor already loaded is pointed at a small "shim" function, which
//! loads the symbol on its first call. Each missing symbol gets one shim;
//! shims are laid out one after the other in a text area, each being the
//! shim template followed by the symbol's name and a zero byte.

use vstd::prelude::*;
use vstd::string::StringSliceAdditionalSpecFns;

verus! {

/// The demangled form of the symbol name `name`, as `rustc-demangle`
/// writes it.
pub uninterp spec fn demangled(name: Seq<char>) -> Seq<char>;

/// `rustc_demangle::demangle(name).to_string()`: claimed to be
/// `demangled(name)`, a function of the name alone.
#[verifier::external_body]
fn demangle_to_string(name: &str) -> (r: String)
    ensures
        r@ == demangled(name@),
{
    rustc_demangle::demangle(name).to_string()
}

/// The demangled name of a dependency symbol, by which it is looked up and
/// by which its shim is known.
pub fn dependency_name(raw: &str) -> (r: String)
    ensures
        r@ == demangled(raw@),
{
    demangle_to_string(raw)
}

/// The bytes of the shim for `function_name`: the template, the name's
/// bytes, and a zero byte.
pub open spec fn shim_bytes(template: Seq<u8>, name: Seq<u8>) -> Seq<u8> {
    template + name + seq![0u8]
}

/// Builds the shim for `function_name` from the shim `template`.
pub fn generate_function_shim(template: &[u8], function_name: &str) -> (r: Vec<u8>)
    ensures
        r@ == shim_bytes(template@, function_name.spec_bytes()),
{
    let mut shim: Vec<u8> = Vec::new();
    append_shim(&mut shim, template, function_name.as_bytes());
    proof {
        assert(shim@ =~= shim_bytes(template@, function_name.spec_bytes()));
    }
    shim
}

/// What the loader knows of the symbol a relocation refers to.
pub struct ShimDependency {
    /// The symbol is a section of the new crate itself.
    pub in_crate: bool,
    /// The symbol is already loaded in the namespace.
    pub loaded: bool,
    /// The bytes of the symbol's demangled name.
    pub name: Vec<u8>,
}

impl ShimDependency {
    /// A dependency on the symbol whose demangled name is `name`.
    pub fn new(in_crate: bool, loaded: bool, name: &str) -> (r: ShimDependency)
        ensures
            r.in_crate == in_crate,
            r.loaded == loaded,
            r.name@ == name.spec_bytes(),
    {
        let bytes = name.as_bytes();
        let mut v: Vec<u8> = Vec::new();
        let mut i: usize = 0;
        while i < bytes.len()
            invariant
                i <= bytes@.len(),
                v@ == bytes@.take(i as int),
            decreases bytes@.len() - i,
        {
            v.push(bytes[i]);
            i = i + 1;
            proof {
                assert(v@ =~= bytes@.take(i as int));
            }
        }
        proof {
            assert(v@ =~= bytes@);
        }
        ShimDependency { in_crate, loaded, name: v }
    }
}

/// Where a relocation is pointed.
#[derive(Clone, Copy, Debug, PartialEq, Eq, Structural)]
pub enum DependencyTarget {
    /// At the section of the new crate.
    InCrate,
    /// At the symbol already loaded.
    Loaded,
    /// At the shim with this index.
    Shim(usize),
}

/// Whether a dependency needs a shim.
pub open spec fn needs_shim(d: ShimDependency) -> bool {
    !d.in_crate && !d.loaded
}

/// The names that get a shim, in the order of their first relocation.
pub open spec fn shim_names(deps: Seq<ShimDependency>) -> Seq<Seq<u8>>
    decreases deps.len(),
{
    if deps.len() == 0 {
        Seq::empty()
    } else {
        let p = shim_names(deps.drop_last());
        let d = deps.last();
        if needs_shim(d) && !p.contains(d.name@) {
            p.push(d.name@)
        } else {
            p
        }
    }
}

/// Whether relocation `d` is rightly pointed at `t`, given the shim names
/// `names`.
pub open spec fn target_ok(d: ShimDependency, t: DependencyTarget, names: Seq<Seq<u8>>) -> bool {
    if d.in_crate {
        t == DependencyTarget::InCrate
    } else if d.loaded {
        t == DependencyTarget::Loaded
    } else {
        t matches DependencyTarget::Shim(k) && 0 <= k < names.len() && names[k as int] == d.name@
    }
}

/// The text area holding the shims for `names`, one after the other.
pub open spec fn shim_text(template: Seq<u8>, names: Seq<Seq<u8>>) -> Seq<u8>
    decreases names.len(),
{
    if names.len() == 0 {
        Seq::empty()
    } else {
        shim_text(template, names.drop_last()) + shim_bytes(template, names.last())
    }
}

/// The bytes of each name of `v`.
pub open spec fn names_view(v: Seq<Vec<u8>>) -> Seq<Seq<u8>> {
    v.map_values(|n: Vec<u8>| n@)
}

/// The plan: where each relocation is pointed, the shims' names and
/// offsets in the text area, and the text area's bytes.
pub struct ShimPlan {
    pub targets: Vec<DependencyTarget>,
    pub names: Vec<Vec<u8>>,
    pub offsets: Vec<usize>,
    pub text: Vec<u8>,
}

/// Appends the shim for `name` to `text`.
fn append_shim(text: &mut Vec<u8>, template: &[u8], name: &[u8])
    ensures
        final(text)@ == old(text)@ + shim_bytes(template@, name@),
{
    let ghost start = text@;
    let mut i: usize = 0;
    while i < template.len()
        invariant
            i <= template@.len(),
            text@ == start + template@.take(i as int),
        decreases template@.len() - i,
    {
        text.push(template[i]);
        i = i + 1;
        proof {
            assert(text@ =~= start + template@.take(i as int));
        }
    }
    let mut j: usize = 0;
    while j < name.len()
        invariant
            j <= name@.len(),
            text@ == start + template@.take(template@.len() as int) + name@.take(j as int),
        decreases name@.len() - j,
    {
        text.push(name[j]);
        j = j + 1;
        proof {
            assert(text@ =~= start + template@.take(template@.len() as int) + name@.take(j as int));
        }
    }
    text.push(0);
    proof {
        assert(text@ =~= start + shim_bytes(template@, name@));
    }
}

/// Whether `a` and `b` hold the same bytes.
fn bytes_eq(a: &[u8], b: &[u8]) -> (r: bool)
    ensures
        r == (a@ == b@),
{
    if a.len() != b.len() {
        return false;
    }
    let mut i: usize = 0;
    while i < a.len()
        invariant
            a@.len() == b@.len(),
            i <= a@.len(),
            forall|k: int| 0 <= k < i ==> a@[k] == b@[k],
        decreases a@.len() - i,
    {
        if a[i] != b[i] {
            return false;
        }
        i = i + 1;
    }
    assert(a@ =~= b@);
    true
}

/// The index of `name` among `names`, if it is there.
fn find_name(names: &Vec<Vec<u8>>, name: &[u8]) -> (r: Option<usize>)
    ensures
        match r {
            Some(k) => k < names@.len() && names_view(names@)[k as int] == name@,
            None => !names_view(names@).contains(name@),
        },
{
    let mut k: usize = 0;
    while k < names.len()
        invariant
            k <= names@.len(),
            forall|j: int| 0 <= j < k ==> names_view(names@)[j] != name@,
        decreases names@.len() - k,
    {
        if bytes_eq(names[k].as_slice(), name) {
            return Some(k);
        }
        k = k + 1;
    }
    None
}

/// Plans the shims for the relocations `deps` with the shim `template`.
///
/// Every name that needs a shim gets exactly one, in the order of its first
/// relocation; the shims are laid out one after the other in the text area,
/// and each relocation is pointed at its section, the loaded symbol, or its
/// name's shim.
pub fn plan_shims(template: &[u8], deps: &[ShimDependency]) -> (r: ShimPlan)
    ensures
        names_view(r.names@) == shim_names(deps@),
        r.targets@.len() == deps@.len(),
        forall|i: int| 0 <= i < deps@.len() ==> target_ok(deps@[i], #[trigger] r.targets@[i], names_view(r.names@)),
        r.text@ == shim_text(template@, names_view(r.names@)),
        r.offsets@.len() == r.names@.len(),
        forall|k: int| 0 <= k < r.offsets@.len() ==> #[trigger] r.offsets@[k] == shim_text(template@, names_view(r.names@).take(k)).len(),
{
    let mut targets: Vec<DependencyTarget> = Vec::new();
    let mut names: Vec<Vec<u8>> = Vec::new();
    let mut offsets: Vec<usize> = Vec::new();
    let mut text: Vec<u8> = Vec::new();
    let mut i: usize = 0;
    proof {
        assert(deps@.take(0) =~= Seq::<ShimDependency>::empty());
        assert(names_view(names@) =~= Seq::<Seq<u8>>::empty());
        assert(text@ =~= shim_text(template@, names_view(names@)));
    }
    while i < deps.len()
        invariant
            i <= deps@.len(),
            names_view(names@) == shim_names(deps@.take(i as int)),
            targets@.len() == i,
            forall|k: int| 0 <= k < i ==> target_ok(deps@[k], #[trigger] targets@[k], names_view(names@)),
            text@ == shim_text(template@, names_view(names@)),
            offsets@.len() == names@.len(),
            forall|k: int| 0 <= k < offsets@.len() ==> #[trigger] offsets@[k] == shim_text(template@, names_view(names@).take(k)).len(),
        decreases deps@.len() - i,
    {
        let d = &deps[i];
        let ghost old_names = names_view(names@);
        proof {
            assert(deps@.take(i + 1).drop_last() =~= deps@.take(i as int));
            assert(deps@.take(i + 1).last() == deps@[i as int]);
        }
        if d.in_crate {
            targets.push(DependencyTarget::InCrate);
        } else if d.loaded {
            targets.push(DependencyTarget::Loaded);
        } else {
            match find_name(&names, d.name.as_slice()) {
                Some(k) => {
                    targets.push(DependencyTarget::Shim(k));
                },
                None => {
                    let offset = text.len();
                    append_shim(&mut text, template, d.name.as_slice());
                    let mut copy: Vec<u8> = Vec::new();
                    let mut j: usize = 0;
                    while j < d.name.len()
                        invariant
                            j <= d.name@.len(),
                            copy@ == d.name@.take(j as int),
                        decreases d.name@.len() - j,
                    {
                        copy.push(d.name[j]);
                        j = j + 1;
                        proof {
                            assert(copy@ =~= d.name@.take(j as int));
                        }
                    }
                    proof {
                        assert(copy@ =~= d.name@);
                    }
                    let k = names.len();
                    names.push(copy);
                    offsets.push(offset);
                    targets.push(DependencyTarget::Shim(k));
                    proof {
                        let nn = names_view(names@);
                        assert(nn =~= old_names.push(d.name@));
                        assert(nn.drop_last() =~= old_names);
                        assert(nn.take(k as int) =~= old_names);
                        assert forall|m: int| 0 <= m < k implies #[trigger] nn.take(m) == old_names.take(m) by {
                            assert(nn.take(m) =~= old_names.take(m));
                        }
                    }
                },
            }
        }
        i = i + 1;
    }
    proof {
        assert(deps@.take(deps@.len() as int) =~= deps@);
    }
    ShimPlan { targets, names, offsets, text }
}

/// A name gets a shim after `deps` exactly when some relocation of `deps`
/// needs a shim for it.
pub proof fn lemma_shim_names_cover(deps: Seq<ShimDependency>, n: Seq<u8>)
    ensures
        shim_names(deps).contains(n) <==> exists|i: int| 0 <= i < deps.len() && needs_shim(#[trigger] deps[i]) && deps[i].name@ == n,
    decreases deps.len(),
{
    if deps.len() > 0 {
        let p = deps.drop_last();
        lemma_shim_names_cover(p, n);
        if shim_names(deps).contains(n) {
            if !shim_names(p).contains(n) {
                let last = deps.len() - 1;
                assert(shim_names(deps) == shim_names(p).push(deps.last().name@));
                let j = choose|j: int| 0 <= j < shim_names(deps).len() && shim_names(deps)[j] == n;
                assert(j == shim_names(p).len());
                assert(needs_shim(deps[last]) && deps[last].name@ == n);
            } else {
                let i = choose|i: int| 0 <= i < p.len() && needs_shim(#[trigger] p[i]) && p[i].name@ == n;
                assert(deps[i] == p[i]);
            }
        } else {
            assert forall|i: int| 0 <= i < deps.len() && needs_shim(#[trigger] deps[i]) implies deps[i].name@ != n by {
                if i < p.len() {
                    assert(deps[i] == p[i]);
                    if deps[i].name@ == n {
                        assert(shim_names(p).contains(n));
                        let j = choose|j: int| 0 <= j < shim_names(p).len() && shim_names(p)[j] == n;
                        assert(shim_names(deps).len() >= shim_names(p).len());
                        assert(shim_names(deps)[j] == n);
                    }
                } else {
                    if deps[i].name@ == n {
                        assert(i == deps.len() - 1);
                        if shim_names(p).contains(n) {
                            let j = choose|j: int| 0 <= j < shim_names(p).len() && shim_names(p)[j] == n;
                            assert(shim_names(deps)[j] == n);
                        } else {
                            assert(shim_names(deps) == shim_names(p).push(n));
                            assert(shim_names(deps)[shim_names(p).len() as int] == n);
                        }
                    }
                }
            }
        }
    }
}

/// No name gets two shims.
pub proof fn lemma_shim_names_distinct(deps: Seq<ShimDependency>)
    ensures
        shim_names(deps).no_duplicates(),
    decreases deps.len(),
{
    if deps.len() > 0 {
        lemma_shim_names_distinct(deps.drop_last());
    }
}

} // verus!
