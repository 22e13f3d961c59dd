//! Where the build leaves the compiled contract, and how the compiler is
//! asked to build it.
use vstd::prelude::*;
use vstd::string::*;

verus! {

/// The directory that the compiler writes WebAssembly builds to.
pub const TARGET_DIR: &'static str = "target/wasm32-unknown-unknown";

/// The extension of a compiled module.
pub const MODULE_EXTENSION: &'static str = ".wasm";

/// `s` with every hyphen replaced by an underscore.
pub open spec fn underscored(s: Seq<char>) -> Seq<char> {
    s.map_values(|c: char| if c == '-' { '_' } else { c })
}

/// The name of the profile subdirectory.
pub open spec fn profile_dir(is_debug_build: bool) -> Seq<char> {
    if is_debug_build {
        "debug"@
    } else {
        "release"@
    }
}

/// The path of the module compiled from the package `package`:
/// `{target dir}/{debug|release}/{package, hyphens as underscores}.wasm`.
pub open spec fn artifact_path(package: Seq<char>, is_debug_build: bool) -> Seq<char> {
    TARGET_DIR@ + "/"@ + profile_dir(is_debug_build) + "/"@ + underscored(package)
        + MODULE_EXTENSION@
}

/// `name` with every hyphen replaced by an underscore.
pub fn underscore_name(name: &str) -> (r: String)
    ensures
        r@ == underscored(name@),
{
    let n = name.unicode_len();
    let mut out = String::new();
    let mut i: usize = 0;
    while i < n
        invariant
            i <= n == name@.len(),
            out@ == underscored(name@.take(i as int)),
        decreases n - i,
    {
        let c = name.get_char(i);
        let ghost before = out@;
        if c == '-' {
            out.append("_");
            proof {
                reveal_strlit("_");
                assert("_"@ =~= seq!['_']);
            }
        } else {
            let one = name.substring_char(i, i + 1);
            out.append(one);
            proof {
                assert(one@ =~= seq![c]);
            }
        }
        proof {
            assert(out@ =~= before.push(if c == '-' { '_' } else { c }));
            assert(underscored(name@.take(i + 1)) =~= underscored(name@.take(i as int)).push(
                if c == '-' { '_' } else { c },
            ));
            assert(out@ =~= underscored(name@.take(i + 1)));
        }
        i = i + 1;
    }
    proof {
        assert(name@.take(i as int) =~= name@);
    }
    out
}

/// The path, relative to the package's directory, at which the build of the
/// package `package_name` leaves its compiled module.
pub fn target_path(package_name: &str, is_debug_build: bool) -> (r: String)
    ensures
        r@ == artifact_path(package_name@, is_debug_build),
{
    let profile = if is_debug_build {
        "debug"
    } else {
        "release"
    };
    let file = underscore_name(package_name);
    let path = String::from_str(TARGET_DIR).concat("/").concat(profile).concat("/").concat(
        file.as_str(),
    ).concat(MODULE_EXTENSION);
    path
}

/// The compilation target of a contract.
pub const TARGET_TRIPLE: &'static str = "wasm32-unknown-unknown";

/// When the compiler colours its output.
#[derive(Debug, Clone, Copy, PartialEq, Eq, Structural)]
pub enum ColorChoice {
    Auto,
    Always,
    Never,
}

/// `requested`, with `Auto` settled by whether standard output is a terminal.
pub fn resolve_color(requested: ColorChoice, stdout_is_tty: bool) -> (r: ColorChoice)
    ensures
        r == (match requested {
            ColorChoice::Auto => if stdout_is_tty {
                ColorChoice::Always
            } else {
                ColorChoice::Never
            },
            other => other,
        }),
{
    match requested {
        ColorChoice::Auto => if stdout_is_tty {
            ColorChoice::Always
        } else {
            ColorChoice::Never
        },
        other => other,
    }
}

/// The word that names the colour mode `c` on the compiler's command line.
pub open spec fn color_word(c: ColorChoice) -> Seq<char> {
    match c {
        ColorChoice::Auto => "auto"@,
        ColorChoice::Always => "always"@,
        ColorChoice::Never => "never"@,
    }
}

/// The word that names the colour mode `c`.
pub fn color_flag(c: ColorChoice) -> (r: &'static str)
    ensures
        r@ == color_word(c),
{
    match c {
        ColorChoice::Auto => "auto",
        ColorChoice::Always => "always",
        ColorChoice::Never => "never",
    }
}

/// The arguments given to `cargo` to compile the contract of the manifest at
/// `manifest_path` for the WebAssembly target, stripped of symbols; in release
/// mode unless `is_debug_build`.
pub open spec fn build_arguments(manifest_path: Seq<char>, is_debug_build: bool, color: Seq<char>) -> Seq<Seq<char>> {
    seq!["rustc"@] + (if is_debug_build {
        Seq::empty()
    } else {
        seq!["--release"@]
    }) + seq![
        "--color"@,
        color,
        "--manifest-path"@,
        manifest_path,
        "--target"@,
        TARGET_TRIPLE@,
        "--"@,
        "-C"@,
        "link-args=-s"@,
    ]
}

fn push_arg(args: &mut Vec<String>, arg: &str)
    ensures
        final(args)@.len() == old(args)@.len() + 1,
        forall|i: int| 0 <= i < old(args)@.len() ==> final(args)@[i] == old(args)@[i],
        final(args)@.last()@ == arg@,
{
    args.push(String::from_str(arg));
}

/// The arguments given to `cargo` to build the contract of the manifest at
/// `manifest_path`, with the colour mode `color`.
pub fn build_args(manifest_path: &str, is_debug_build: bool, color: ColorChoice) -> (r: Vec<String>)
    ensures
        crate::abi::texts(r@) == build_arguments(manifest_path@, is_debug_build, color_word(color)),
{
    let mut args: Vec<String> = Vec::new();
    push_arg(&mut args, "rustc");
    if !is_debug_build {
        push_arg(&mut args, "--release");
    }
    push_arg(&mut args, "--color");
    push_arg(&mut args, color_flag(color));
    push_arg(&mut args, "--manifest-path");
    push_arg(&mut args, manifest_path);
    push_arg(&mut args, "--target");
    push_arg(&mut args, TARGET_TRIPLE);
    push_arg(&mut args, "--");
    push_arg(&mut args, "-C");
    push_arg(&mut args, "link-args=-s");
    proof {
        assert(crate::abi::texts(args@) =~= build_arguments(
            manifest_path@,
            is_debug_build,
            color_word(color),
        ));
    }
    args
}

} // verus!
