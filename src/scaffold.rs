use vstd::prelude::*;
use vstd::string::StringExecFns;
use crate::orchestrator::PackageKind;

verus! {

pub const BIN_EXAMPLE: &'static str = "fn main(x : Field, y : pub Field) {
    assert(x != y);
}

#[test]
fn test_main() {
    main(1, 2);

    // Uncomment to make test fail
    // main(1, 1);
}
";

pub const CONTRACT_EXAMPLE: &'static str = "contract Main {
    internal fn double(x: Field) -> pub Field { x * 2 }
    fn triple(x: Field) -> pub Field { x * 3 }
    fn quadruple(x: Field) -> pub Field { double(double(x)) }
}
";

pub const LIB_EXAMPLE: &'static str = "fn my_util(x : Field, y : Field) -> bool {
    x != y
}

#[test]
fn test_my_util() {
    assert(my_util(1, 2));

    // Uncomment to make test fail
    // assert(my_util(1, 1));
}
";

/// The kind a new package gets from its flags: library wins, then contract, and a
/// binary is the default.
pub open spec fn kind_from_flags(lib: bool, contract: bool) -> PackageKind {
    if lib {
        PackageKind::Library
    } else if contract {
        PackageKind::Contract
    } else {
        PackageKind::Binary
    }
}

pub fn package_kind_from_flags(lib: bool, contract: bool) -> (r: PackageKind)
    ensures
        r == kind_from_flags(lib, contract),
{
    if lib {
        PackageKind::Library
    } else if contract {
        PackageKind::Contract
    } else {
        PackageKind::Binary
    }
}

/// The name of a kind as the package manifest writes it.
pub fn kind_label(kind: PackageKind) -> (r: &'static str)
    ensures
        r@ == kind_label_spec(kind),
{
    proof {
        reveal_strlit("bin");
        reveal_strlit("lib");
        reveal_strlit("contract");
    }
    match kind {
        PackageKind::Binary => "bin",
        PackageKind::Library => "lib",
        PackageKind::Contract => "contract",
    }
}

pub open spec fn kind_label_spec(kind: PackageKind) -> Seq<char> {
    match kind {
        PackageKind::Binary => seq!['b', 'i', 'n'],
        PackageKind::Library => seq!['l', 'i', 'b'],
        PackageKind::Contract => seq!['c', 'o', 'n', 't', 'r', 'a', 'c', 't'],
    }
}

/// The manifest of a new package, piece by piece.
pub open spec fn manifest_spec(name: Seq<char>, kind: PackageKind, compiler_version: Seq<char>) -> Seq<
    char,
> {
    "[package]\nname = \""@ + name + "\"\ntype = \""@ + kind_label_spec(kind)
        + "\"\nauthors = [\"\"]\ncompiler_version = \""@ + compiler_version
        + "\"\n\n[dependencies]"@
}

/// Writes the manifest of a new package.
pub fn manifest_text(name: &str, kind: PackageKind, compiler_version: &str) -> (r: String)
    ensures
        r@ == manifest_spec(name@, kind, compiler_version@),
{
    let mut s = String::from_str("[package]\nname = \"");
    s.append(name);
    s.append("\"\ntype = \"");
    s.append(kind_label(kind));
    s.append("\"\nauthors = [\"\"]\ncompiler_version = \"");
    s.append(compiler_version);
    s.append("\"\n\n[dependencies]");
    s
}

/// The source file a new package starts with: its name under the source directory,
/// and its contents.
pub fn template_for(kind: PackageKind) -> (r: (&'static str, &'static str))
    ensures
        r.0@ == (if kind == PackageKind::Library {
            "lib.nr"@
        } else {
            "main.nr"@
        }),
        r.1@ == (match kind {
            PackageKind::Binary => BIN_EXAMPLE@,
            PackageKind::Contract => CONTRACT_EXAMPLE@,
            PackageKind::Library => LIB_EXAMPLE@,
        }),
{
    match kind {
        PackageKind::Binary => ("main.nr", BIN_EXAMPLE),
        PackageKind::Contract => ("main.nr", CONTRACT_EXAMPLE),
        PackageKind::Library => ("lib.nr", LIB_EXAMPLE),
    }
}

} // verus!
