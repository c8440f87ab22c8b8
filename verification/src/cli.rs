//! The command line's decisions: reading options from arguments, the
//! arguments handed to `oras`, and the text the commands print.
use vstd::prelude::*;
use vstd::string::*;
use crate::analysis::{CatalogTrustReport, Finding, ManifestReport, Severity, fviews};
use crate::conformance::{ConformanceLevel, Diagnostic, dviews};
use crate::text::{
    chars_of, find, find_char_exec, lemma_find_in_bounds, rfind_char, rfind_char_exec,
    slice_vec, str_eq, string_from_chars, usize_to_string,
};
use crate::validate::{cat, cat3};

verus! {

/// How a command prints its result.
#[derive(Debug, Clone, Copy, PartialEq, Eq, Structural)]
pub enum OutputFormat {
    Text,
    Json,
}

/// The options of `validate`.
#[derive(Debug, Clone)]
pub struct ValidateOptions {
    pub output_format: OutputFormat,
    pub path: String,
}

/// The options of `trust inspect`.
#[derive(Debug, Clone)]
pub struct TrustOptions {
    pub output_format: OutputFormat,
    pub path: String,
}

/// The options of `oci export-layout`.
#[derive(Debug, Clone)]
pub struct OciExportLayoutOptions {
    pub path: String,
    pub layout_path: String,
    pub tag: String,
}

/// The options of `oci unpack-layout`.
#[derive(Debug, Clone)]
pub struct OciUnpackLayoutOptions {
    pub layout_path: String,
    pub ref_name: Option<String>,
}

/// The options of `oci push`.
#[derive(Debug, Clone)]
pub struct OciPushOptions {
    pub path: String,
    pub target: String,
    pub tag: String,
    pub to_oci_layout_path: Option<String>,
    pub plain_http: bool,
    pub insecure: bool,
    /// The key that signs the trust manifests, when one is given.
    pub cosign_key: Option<String>,
}

pub open spec fn arg_views(args: Seq<String>) -> Seq<Seq<char>> {
    args.map_values(|a: String| a@)
}

pub open spec fn is_option(arg: Seq<char>) -> bool {
    arg.len() > 0 && arg[0] == '-' && arg != "-"@
}

pub open spec fn one_path_message(label: Seq<char>) -> Seq<char> {
    label + " expects exactly one <path> argument"@
}

pub open spec fn unknown_option_message(label: Seq<char>, arg: Seq<char>) -> Seq<char> {
    "unknown "@ + label + " option: "@ + arg
}

/// Reading `[--json] <path|->`: the output format and the path so far, or
/// the message of the first problem.
pub open spec fn format_path_scan(label: Seq<char>, args: Seq<Seq<char>>) -> Result<(OutputFormat, Option<Seq<char>>), Seq<char>>
    decreases args.len(),
{
    if args.len() == 0 {
        Ok((OutputFormat::Text, None))
    } else {
        match format_path_scan(label, args.drop_last()) {
            Err(e) => Err(e),
            Ok((format, path)) => {
                let arg = args.last();
                if arg == "--json"@ {
                    Ok((OutputFormat::Json, path))
                } else if is_option(arg) {
                    Err(unknown_option_message(label, arg))
                } else if path is Some {
                    Err(one_path_message(label))
                } else {
                    Ok((format, Some(arg)))
                }
            },
        }
    }
}

/// The output format and the single path of `[--json] <path|->`.
pub open spec fn spec_format_and_path(label: Seq<char>, args: Seq<Seq<char>>) -> Result<(OutputFormat, Seq<char>), Seq<char>> {
    match format_path_scan(label, args) {
        Err(e) => Err(e),
        Ok((_, None)) => Err(one_path_message(label)),
        Ok((format, Some(path))) => Ok((format, path)),
    }
}

fn starts_with_dash(arg: &str) -> (r: bool)
    ensures
        r == (arg@.len() > 0 && arg@[0] == '-'),
{
    let chars = chars_of(arg);
    chars.len() > 0 && chars[0] == '-'
}

fn is_option_exec(arg: &str) -> (r: bool)
    ensures
        r == is_option(arg@),
{
    starts_with_dash(arg) && !str_eq(arg, "-")
}

fn format_and_path(label: &str, args: &Vec<String>) -> (r: Result<(OutputFormat, String), String>)
    ensures
        match r {
            Ok((f, p)) => spec_format_and_path(label@, arg_views(args@)) == Ok::<_, Seq<char>>((f, p@)),
            Err(e) => spec_format_and_path(label@, arg_views(args@)) == Err::<(OutputFormat, Seq<char>), _>(e@),
        },
{
    let ghost av = arg_views(args@);
    let mut format = OutputFormat::Text;
    let mut path: Option<String> = None;
    let mut i: usize = 0;
    assert(av.take(0) =~= Seq::<Seq<char>>::empty());
    while i < args.len()
        invariant
            av == arg_views(args@),
            av.len() == args@.len(),
            i <= args@.len(),
            format_path_scan(label@, av.take(i as int)) == Ok::<_, Seq<char>>((format, crate::text::opt_view(path))),
        decreases args.len() - i,
    {
        assert(av.take(i + 1).drop_last() =~= av.take(i as int));
        assert(av.take(i + 1).last() == args@[i as int]@);
        let arg = args[i].as_str();
        if str_eq(arg, "--json") {
            format = OutputFormat::Json;
        } else if is_option_exec(arg) {
            proof {
                lemma_scan_err_stays(label@, av, i as nat + 1);
            }
            let mut message = cat3("unknown ", label, " option: ");
            message.append(arg);
            return Err(message);
        } else if path.is_some() {
            proof {
                lemma_scan_err_stays(label@, av, i as nat + 1);
            }
            return Err(cat(label, " expects exactly one <path> argument"));
        } else {
            path = Some(args[i].clone());
        }
        i = i + 1;
    }
    assert(av.take(av.len() as int) =~= av);
    match path {
        Some(p) => Ok((format, p)),
        None => Err(cat(label, " expects exactly one <path> argument")),
    }
}

/// Once reading fails, it stays failed with the same message.
proof fn lemma_scan_err_stays(label: Seq<char>, args: Seq<Seq<char>>, n: nat)
    requires
        n <= args.len(),
        format_path_scan(label, args.take(n as int)) is Err,
    ensures
        format_path_scan(label, args) == format_path_scan(label, args.take(n as int)),
    decreases args.len() - n,
{
    if n < args.len() {
        assert(args.take(n + 1int).drop_last() =~= args.take(n as int));
        lemma_scan_err_stays(label, args, n + 1);
    } else {
        assert(args.take(n as int) =~= args);
    }
}

/// Reads the options of `validate [--json] <path|->`; the error is the
/// message to print above the usage.
pub fn parse_validate_options(args: &Vec<String>) -> (r: Result<ValidateOptions, String>)
    ensures
        match r {
            Ok(o) => spec_format_and_path("validate"@, arg_views(args@)) == Ok::<_, Seq<char>>(
                (o.output_format, o.path@),
            ),
            Err(e) => spec_format_and_path("validate"@, arg_views(args@)) == Err::<(OutputFormat, Seq<char>), _>(e@),
        },
{
    match format_and_path("validate", args) {
        Ok((output_format, path)) => Ok(ValidateOptions { output_format, path }),
        Err(e) => Err(e),
    }
}

/// Reads the options of `trust inspect [--json] <path|->`; the error is the
/// message to print above the usage.
pub fn parse_trust_options(args: &Vec<String>) -> (r: Result<TrustOptions, String>)
    ensures
        match r {
            Ok(o) => spec_format_and_path("trust inspect"@, arg_views(args@)) == Ok::<_, Seq<char>>(
                (o.output_format, o.path@),
            ),
            Err(e) => spec_format_and_path("trust inspect"@, arg_views(args@)) == Err::<(OutputFormat, Seq<char>), _>(e@),
        },
{
    match format_and_path("trust inspect", args) {
        Ok((output_format, path)) => Ok(TrustOptions { output_format, path }),
        Err(e) => Err(e),
    }
}

/// The single path argument of a command, or the message to print above
/// the usage.
pub fn expect_single_path(command: &str, args: &Vec<String>) -> (r: Result<String, String>)
    ensures
        args@.len() == 1 ==> (r matches Ok(p) && p@ == args@[0]@),
        args@.len() != 1 ==> (r matches Err(e) && e@ == command@ + " expects exactly one <path> argument"@),
{
    if args.len() == 1 {
        Ok(args[0].clone())
    } else {
        Err(cat(command, " expects exactly one <path> argument"))
    }
}

/// The state of reading `oci export-layout` arguments: the tag and the
/// positional arguments so far.
pub open spec fn export_scan(args: Seq<Seq<char>>, i: nat, tag: Seq<char>, positional: Seq<Seq<char>>) -> Result<(Seq<char>, Seq<Seq<char>>), Seq<char>>
    decreases args.len() - i,
{
    if i >= args.len() {
        Ok((tag, positional))
    } else {
        let arg = args[i as int];
        if arg == "--tag"@ {
            if i + 1 >= args.len() {
                Err("oci export-layout requires a value for --tag"@)
            } else {
                export_scan(args, i + 2, args[i + 1int], positional)
            }
        } else if is_option(arg) {
            Err(unknown_option_message("oci export-layout"@, arg))
        } else {
            export_scan(args, i + 1, tag, positional.push(arg))
        }
    }
}

/// The path, layout directory and tag of `oci export-layout [--tag <tag>]
/// <path|-> <layout-dir>`, or the message of the problem.
pub open spec fn spec_export_layout_options(args: Seq<Seq<char>>) -> Result<(Seq<char>, Seq<char>, Seq<char>), Seq<char>> {
    match export_scan(args, 0, "latest"@, Seq::empty()) {
        Err(e) => Err(e),
        Ok((tag, positional)) => if positional.len() != 2 {
            Err("oci export-layout expects exactly one <path|-> and one <layout-dir> argument"@)
        } else {
            Ok((positional[0], positional[1], tag))
        },
    }
}

/// Reads the options of `oci export-layout`.
pub fn parse_oci_export_layout_options(args: &Vec<String>) -> (r: Result<OciExportLayoutOptions, String>)
    ensures
        match r {
            Ok(o) => spec_export_layout_options(arg_views(args@)) == Ok::<_, Seq<char>>(
                (o.path@, o.layout_path@, o.tag@),
            ),
            Err(e) => spec_export_layout_options(arg_views(args@)) == Err::<(Seq<char>, Seq<char>, Seq<char>), _>(e@),
        },
{
    let ghost av = arg_views(args@);
    let mut tag = String::from_str("latest");
    let mut positional: Vec<String> = Vec::new();
    let mut index: usize = 0;
    assert(arg_views(positional@) =~= Seq::<Seq<char>>::empty());
    while index < args.len()
        invariant
            av == arg_views(args@),
            av.len() == args@.len(),
            index <= args@.len(),
            export_scan(av, 0, "latest"@, Seq::empty()) == export_scan(av, index as nat, tag@, arg_views(positional@)),
        decreases args.len() - index,
    {
        assert(av[index as int] == args@[index as int]@);
        let arg = args[index].as_str();
        if str_eq(arg, "--tag") {
            if index + 1 >= args.len() {
                return Err(String::from_str("oci export-layout requires a value for --tag"));
            }
            assert(av[index + 1] == args@[index + 1]@);
            tag = args[index + 1].clone();
            index = index + 2;
        } else if is_option_exec(arg) {
            let mut message = cat3("unknown ", "oci export-layout", " option: ");
            message.append(arg);
            return Err(message);
        } else {
            let ghost before = arg_views(positional@);
            positional.push(args[index].clone());
            assert(arg_views(positional@) =~= before.push(av[index as int]));
            index = index + 1;
        }
    }
    if positional.len() != 2 {
        return Err(String::from_str("oci export-layout expects exactly one <path|-> and one <layout-dir> argument"));
    }
    assert(arg_views(positional@)[0] == positional@[0]@);
    assert(arg_views(positional@)[1] == positional@[1]@);
    let layout_path = positional[1].clone();
    let path = positional[0].clone();
    Ok(OciExportLayoutOptions { path, layout_path, tag })
}

pub struct PushScan {
    pub tag: Seq<char>,
    pub to_layout: Option<Seq<char>>,
    pub plain_http: bool,
    pub insecure: bool,
    pub cosign_key: Option<Seq<char>>,
    pub positional: Seq<Seq<char>>,
}

/// The state of reading `oci push` arguments.
pub open spec fn push_scan(args: Seq<Seq<char>>, i: nat, s: PushScan) -> Result<PushScan, Seq<char>>
    decreases args.len() - i,
{
    if i >= args.len() {
        Ok(s)
    } else {
        let arg = args[i as int];
        if arg == "--tag"@ {
            if i + 1 >= args.len() {
                Err("oci push requires a value for --tag"@)
            } else {
                push_scan(args, i + 2, PushScan { tag: args[i + 1int], ..s })
            }
        } else if arg == "--to-oci-layout-path"@ {
            if i + 1 >= args.len() {
                Err("oci push requires a value for --to-oci-layout-path"@)
            } else {
                push_scan(args, i + 2, PushScan { to_layout: Some(args[i + 1int]), ..s })
            }
        } else if arg == "--cosign-key"@ {
            if i + 1 >= args.len() {
                Err("oci push requires a value for --cosign-key"@)
            } else {
                push_scan(args, i + 2, PushScan { cosign_key: Some(args[i + 1int]), ..s })
            }
        } else if arg == "--plain-http"@ {
            push_scan(args, i + 1, PushScan { plain_http: true, ..s })
        } else if arg == "--insecure"@ {
            push_scan(args, i + 1, PushScan { insecure: true, ..s })
        } else if is_option(arg) {
            Err(unknown_option_message("oci push"@, arg))
        } else {
            push_scan(args, i + 1, PushScan { positional: s.positional.push(arg), ..s })
        }
    }
}

pub open spec fn push_start() -> PushScan {
    PushScan {
        tag: "latest"@,
        to_layout: None,
        plain_http: false,
        insecure: false,
        cosign_key: None,
        positional: Seq::empty(),
    }
}

/// What `oci push [--tag <tag>] [--plain-http] [--insecure]
/// [--to-oci-layout-path <layout-dir>] [--cosign-key <key>] <path|-> <target>`
/// reads as: the
/// finished state with its two positional arguments, or a message.
pub open spec fn spec_push_options(args: Seq<Seq<char>>) -> Result<PushScan, Seq<char>> {
    match push_scan(args, 0, push_start()) {
        Err(e) => Err(e),
        Ok(s) => if s.positional.len() != 2 {
            Err("oci push expects exactly one <path|-> and one <target> argument"@)
        } else {
            Ok(s)
        },
    }
}

pub open spec fn push_state(
    tag: String,
    to_layout: Option<String>,
    plain_http: bool,
    insecure: bool,
    cosign_key: Option<String>,
    positional: Seq<String>,
) -> PushScan {
    PushScan {
        tag: tag@,
        to_layout: crate::text::opt_view(to_layout),
        plain_http,
        insecure,
        cosign_key: crate::text::opt_view(cosign_key),
        positional: arg_views(positional),
    }
}

/// Reads the options of `oci push`.
pub fn parse_oci_push_options(args: &Vec<String>) -> (r: Result<OciPushOptions, String>)
    ensures
        match r {
            Ok(o) => (spec_push_options(arg_views(args@)) matches Ok(s) && s.tag == o.tag@
                && s.to_layout == crate::text::opt_view(o.to_oci_layout_path) && s.plain_http
                == o.plain_http && s.insecure == o.insecure && s.cosign_key == crate::text::opt_view(o.cosign_key)
                && s.positional[0] == o.path@
                && s.positional[1] == o.target@),
            Err(e) => spec_push_options(arg_views(args@)) == Err::<PushScan, _>(e@),
        },
{
    let ghost av = arg_views(args@);
    let mut tag = String::from_str("latest");
    let mut to_oci_layout_path: Option<String> = None;
    let mut plain_http = false;
    let mut insecure = false;
    let mut cosign_key: Option<String> = None;
    let mut positional: Vec<String> = Vec::new();
    let mut index: usize = 0;
    assert(arg_views(positional@) =~= Seq::<Seq<char>>::empty());
    assert(push_state(tag, to_oci_layout_path, plain_http, insecure, cosign_key, positional@) == push_start());
    while index < args.len()
        invariant
            av == arg_views(args@),
            av.len() == args@.len(),
            index <= args@.len(),
            push_scan(av, 0, push_start()) == push_scan(
                av,
                index as nat,
                push_state(tag, to_oci_layout_path, plain_http, insecure, cosign_key, positional@),
            ),
        decreases args.len() - index,
    {
        assert(av[index as int] == args@[index as int]@);
        let arg = args[index].as_str();
        if str_eq(arg, "--tag") {
            if index + 1 >= args.len() {
                return Err(String::from_str("oci push requires a value for --tag"));
            }
            assert(av[index + 1] == args@[index + 1]@);
            tag = args[index + 1].clone();
            index = index + 2;
        } else if str_eq(arg, "--to-oci-layout-path") {
            if index + 1 >= args.len() {
                return Err(String::from_str("oci push requires a value for --to-oci-layout-path"));
            }
            assert(av[index + 1] == args@[index + 1]@);
            to_oci_layout_path = Some(args[index + 1].clone());
            index = index + 2;
        } else if str_eq(arg, "--cosign-key") {
            if index + 1 >= args.len() {
                return Err(String::from_str("oci push requires a value for --cosign-key"));
            }
            assert(av[index + 1] == args@[index + 1]@);
            cosign_key = Some(args[index + 1].clone());
            index = index + 2;
        } else if str_eq(arg, "--plain-http") {
            plain_http = true;
            index = index + 1;
        } else if str_eq(arg, "--insecure") {
            insecure = true;
            index = index + 1;
        } else if is_option_exec(arg) {
            let mut message = cat3("unknown ", "oci push", " option: ");
            message.append(arg);
            return Err(message);
        } else {
            let ghost before = arg_views(positional@);
            positional.push(args[index].clone());
            assert(arg_views(positional@) =~= before.push(av[index as int]));
            index = index + 1;
        }
    }
    if positional.len() != 2 {
        return Err(String::from_str("oci push expects exactly one <path|-> and one <target> argument"));
    }
    assert(arg_views(positional@)[0] == positional@[0]@);
    assert(arg_views(positional@)[1] == positional@[1]@);
    let target = positional[1].clone();
    let path = positional[0].clone();
    Ok(OciPushOptions { path, target, tag, to_oci_layout_path, plain_http, insecure, cosign_key })
}

/// The state of reading `oci unpack-layout` arguments: the reference name
/// and the layout directory so far.
pub open spec fn unpack_scan(args: Seq<Seq<char>>, i: nat, ref_name: Option<Seq<char>>, layout: Option<Seq<char>>) -> Result<(Option<Seq<char>>, Option<Seq<char>>), Seq<char>>
    decreases args.len() - i,
{
    if i >= args.len() {
        Ok((ref_name, layout))
    } else {
        let arg = args[i as int];
        if arg == "--ref-name"@ {
            if i + 1 >= args.len() {
                Err("oci unpack-layout requires a value for --ref-name"@)
            } else {
                unpack_scan(args, i + 2, Some(args[i + 1int]), layout)
            }
        } else if arg.len() > 0 && arg[0] == '-' {
            Err(unknown_option_message("oci unpack-layout"@, arg))
        } else if layout is Some {
            Err("oci unpack-layout expects exactly one <layout-dir> argument"@)
        } else {
            unpack_scan(args, i + 1, ref_name, Some(arg))
        }
    }
}

/// The layout directory and reference name of `oci unpack-layout
/// [--ref-name <name>] <layout-dir>`, or the message of the problem.
pub open spec fn spec_unpack_layout_options(args: Seq<Seq<char>>) -> Result<(Seq<char>, Option<Seq<char>>), Seq<char>> {
    match unpack_scan(args, 0, None, None) {
        Err(e) => Err(e),
        Ok((_, None)) => Err("oci unpack-layout expects exactly one <layout-dir> argument"@),
        Ok((ref_name, Some(layout))) => Ok((layout, ref_name)),
    }
}

/// Reads the options of `oci unpack-layout`.
pub fn parse_oci_unpack_layout_options(args: &Vec<String>) -> (r: Result<OciUnpackLayoutOptions, String>)
    ensures
        match r {
            Ok(o) => spec_unpack_layout_options(arg_views(args@)) == Ok::<_, Seq<char>>(
                (o.layout_path@, crate::text::opt_view(o.ref_name)),
            ),
            Err(e) => spec_unpack_layout_options(arg_views(args@)) == Err::<(Seq<char>, Option<Seq<char>>), _>(e@),
        },
{
    let ghost av = arg_views(args@);
    let mut ref_name: Option<String> = None;
    let mut layout_path: Option<String> = None;
    let mut index: usize = 0;
    while index < args.len()
        invariant
            av == arg_views(args@),
            av.len() == args@.len(),
            index <= args@.len(),
            unpack_scan(av, 0, None, None) == unpack_scan(
                av,
                index as nat,
                crate::text::opt_view(ref_name),
                crate::text::opt_view(layout_path),
            ),
        decreases args.len() - index,
    {
        assert(av[index as int] == args@[index as int]@);
        let arg = args[index].as_str();
        if str_eq(arg, "--ref-name") {
            if index + 1 >= args.len() {
                return Err(String::from_str("oci unpack-layout requires a value for --ref-name"));
            }
            assert(av[index + 1] == args@[index + 1]@);
            ref_name = Some(args[index + 1].clone());
            index = index + 2;
        } else if starts_with_dash(arg) {
            let mut message = cat3("unknown ", "oci unpack-layout", " option: ");
            message.append(arg);
            return Err(message);
        } else if layout_path.is_some() {
            return Err(String::from_str("oci unpack-layout expects exactly one <layout-dir> argument"));
        } else {
            layout_path = Some(args[index].clone());
            index = index + 1;
        }
    }
    match layout_path {
        Some(layout_path) => Ok(OciUnpackLayoutOptions { layout_path, ref_name }),
        None => Err(String::from_str("oci unpack-layout expects exactly one <layout-dir> argument")),
    }
}

/// The usage text, each line ending with a newline.
pub open spec fn usage_text() -> Seq<char> {
    "Usage:\n  ai-catalog-cli validate [--json] <path|->\n  ai-catalog-cli format <path|->\n  ai-catalog-cli trust inspect [--json] <path|->\n  ai-catalog-cli oci pack <path|->\n  ai-catalog-cli oci unpack <path|->\n  ai-catalog-cli oci export-layout [--tag <tag>] <path|-> <layout-dir>\n  ai-catalog-cli oci unpack-layout [--ref-name <name>] <layout-dir>\n  ai-catalog-cli oci push [--tag <tag>] [--plain-http] [--insecure] [--to-oci-layout-path <layout-dir>] <path|-> <target>\n  ai-catalog-cli help\n  ai-catalog-cli version\n\nUse '-' as <path> to read from stdin.\n"@
}

/// The usage text of the command line.
pub fn usage() -> (r: String)
    ensures
        r@ == usage_text(),
{
    String::from_str(
        "Usage:\n  ai-catalog-cli validate [--json] <path|->\n  ai-catalog-cli format <path|->\n  ai-catalog-cli trust inspect [--json] <path|->\n  ai-catalog-cli oci pack <path|->\n  ai-catalog-cli oci unpack <path|->\n  ai-catalog-cli oci export-layout [--tag <tag>] <path|-> <layout-dir>\n  ai-catalog-cli oci unpack-layout [--ref-name <name>] <layout-dir>\n  ai-catalog-cli oci push [--tag <tag>] [--plain-http] [--insecure] [--to-oci-layout-path <layout-dir>] <path|-> <target>\n  ai-catalog-cli help\n  ai-catalog-cli version\n\nUse '-' as <path> to read from stdin.\n",
    )
}

/// The help text: the program's name, a blank line and the usage.
pub fn help() -> (r: String)
    ensures
        r@ == "ai-catalog-cli\n\n"@ + usage_text(),
{
    let u = usage();
    cat("ai-catalog-cli\n\n", u.as_str())
}

pub open spec fn oras_options(to_layout: Option<Seq<char>>, plain_http: bool, insecure: bool) -> Seq<Seq<char>> {
    seq!["cp"@, "-r"@, "--from-oci-layout"@] + (match to_layout {
        Some(p) => seq!["--to-oci-layout-path"@, p],
        None => Seq::empty(),
    }) + (if plain_http {
        seq!["--to-plain-http"@]
    } else {
        Seq::empty()
    }) + (if insecure {
        seq!["--to-insecure"@]
    } else {
        Seq::empty()
    })
}

fn push_arg(args: &mut Vec<String>, a: String)
    ensures
        arg_views(final(args)@) == arg_views(old(args)@).push(a@),
{
    let ghost before = arg_views(args@);
    args.push(a);
    assert(arg_views(args@) =~= before.push(a@));
}

fn oras_option_args(to_oci_layout_path: Option<&str>, plain_http: bool, insecure: bool) -> (r: Vec<String>)
    ensures
        arg_views(r@) == oras_options(
            match to_oci_layout_path {
                Some(p) => Some(p@),
                None => None,
            },
            plain_http,
            insecure,
        ),
{
    let mut args: Vec<String> = Vec::new();
    assert(arg_views(args@) =~= Seq::<Seq<char>>::empty());
    push_arg(&mut args, String::from_str("cp"));
    push_arg(&mut args, String::from_str("-r"));
    push_arg(&mut args, String::from_str("--from-oci-layout"));
    match to_oci_layout_path {
        Some(layout_path) => {
            push_arg(&mut args, String::from_str("--to-oci-layout-path"));
            push_arg(&mut args, String::from_str(layout_path));
        },
        None => {},
    }
    if plain_http {
        push_arg(&mut args, String::from_str("--to-plain-http"));
    }
    if insecure {
        push_arg(&mut args, String::from_str("--to-insecure"));
    }
    let ghost tl = match to_oci_layout_path {
        Some(p) => Some(p@),
        None => None,
    };
    assert(arg_views(args@) =~= oras_options(tl, plain_http, insecure));
    args
}

/// The arguments of `oras cp` that copy the tagged root of a layout
/// directory to a target.
pub fn build_oras_cp_args(
    layout_dir: &str,
    tag: &str,
    target: &str,
    to_oci_layout_path: Option<&str>,
    plain_http: bool,
    insecure: bool,
) -> (r: Vec<String>)
    ensures
        arg_views(r@) == oras_options(
            match to_oci_layout_path {
                Some(p) => Some(p@),
                None => None,
            },
            plain_http,
            insecure,
        ) + seq![layout_dir@ + ":"@ + tag@, target@],
{
    let mut args = oras_option_args(to_oci_layout_path, plain_http, insecure);
    let ghost before = arg_views(args@);
    push_arg(&mut args, cat3(layout_dir, ":", tag));
    push_arg(&mut args, String::from_str(target));
    assert(arg_views(args@) =~= before + seq![layout_dir@ + ":"@ + tag@, target@]);
    args
}

/// The arguments of `oras cp` that copy a referrer manifest of a layout
/// directory, by digest, to a repository.
pub fn build_oras_cp_referrer_args(
    layout_dir: &str,
    digest: &str,
    target_repository: &str,
    to_oci_layout_path: Option<&str>,
    plain_http: bool,
    insecure: bool,
) -> (r: Vec<String>)
    ensures
        arg_views(r@) == oras_options(
            match to_oci_layout_path {
                Some(p) => Some(p@),
                None => None,
            },
            plain_http,
            insecure,
        ) + seq![layout_dir@ + "@"@ + digest@, target_repository@],
{
    let mut args = oras_option_args(to_oci_layout_path, plain_http, insecure);
    let ghost before = arg_views(args@);
    push_arg(&mut args, cat3(layout_dir, "@", digest));
    push_arg(&mut args, String::from_str(target_repository));
    assert(arg_views(args@) =~= before + seq![layout_dir@ + "@"@ + digest@, target_repository@]);
    args
}

/// The repository of an OCI reference: what comes before `@digest`, or
/// before a `:tag` that follows the last `/`.
pub open spec fn spec_target_repository(target: Seq<char>) -> Seq<char> {
    match find(target, seq!['@']) {
        Some(k) => target.take(k),
        None => match rfind_char(target, ':') {
            Some(c) => if rfind_char(target, '/') matches Some(s) && c <= s {
                target
            } else {
                target.take(c)
            },
            None => target,
        },
    }
}

/// The repository of an OCI reference, its tag or digest stripped.
pub fn target_repository(target: &str) -> (r: String)
    ensures
        r@ == spec_target_repository(target@),
{
    let chars = chars_of(target);
    match find_char_exec(chars.as_slice(), '@') {
        Some(k) => {
            proof {
                lemma_find_in_bounds(chars@, seq!['@'], 0);
                assert(crate::text::find_from(chars@, seq!['@'], 0) == Some(k as int));
            }
            let v = slice_vec(chars.as_slice(), 0, k);
            assert(v@ =~= target@.take(k as int));
            return string_from_chars(v.as_slice());
        },
        None => {},
    }
    let last_slash = rfind_char_exec(chars.as_slice(), '/');
    match rfind_char_exec(chars.as_slice(), ':') {
        Some(c) => {
            let keep = match last_slash {
                Some(s) => c <= s,
                None => false,
            };
            if keep {
                String::from_str(target)
            } else {
                proof {
                    crate::text::lemma_rfind_in_bounds(chars@, ':');
                }
                let v = slice_vec(chars.as_slice(), 0, c);
                assert(v@ =~= target@.take(c as int));
                string_from_chars(v.as_slice())
            }
        },
        None => String::from_str(target),
    }
}

/// The name a conformance level is printed with.
pub fn conformance_level_name(level: ConformanceLevel) -> (r: &'static str)
    ensures
        r@ == match level {
            ConformanceLevel::Minimal => "minimal"@,
            ConformanceLevel::Discoverable => "discoverable"@,
            ConformanceLevel::Trusted => "trusted"@,
        },
{
    match level {
        ConformanceLevel::Minimal => "minimal",
        ConformanceLevel::Discoverable => "discoverable",
        ConformanceLevel::Trusted => "trusted",
    }
}

/// The name a finding's severity is printed with.
pub fn severity_name(severity: Severity) -> (r: &'static str)
    ensures
        r@ == match severity {
            Severity::Error => "error"@,
            Severity::Warning => "warning"@,
        },
{
    match severity {
        Severity::Error => "error",
        Severity::Warning => "warning",
    }
}

/// How an input path is named in messages: `stdin` for `-`, else quoted.
pub fn input_label(path: &str) -> (r: String)
    ensures
        r@ == if path@ == "-"@ {
            "stdin"@
        } else {
            "'"@ + path@ + "'"@
        },
{
    if str_eq(path, "-") {
        String::from_str("stdin")
    } else {
        cat3("'", path, "'")
    }
}

/// The message for an input that does not parse, given the error's text.
pub fn parse_error_message(path: &str, error: &str) -> (r: String)
    ensures
        r@ == if path@ == "-"@ {
            "failed to parse stdin: "@ + error@
        } else {
            "failed to parse '"@ + path@ + "': "@ + error@
        },
{
    if str_eq(path, "-") {
        cat("failed to parse stdin: ", error)
    } else {
        let mut s = cat3("failed to parse '", path, "': ");
        s.append(error);
        s
    }
}

pub open spec fn has_error_finding(fs: Seq<crate::analysis::FindingView>) -> bool {
    exists|i: int| 0 <= i < fs.len() && (#[trigger] fs[i]).severity == Severity::Error
}

/// Whether a trust report holds an error finding.
pub fn trust_report_has_errors(report: &CatalogTrustReport) -> (r: bool)
    ensures
        r == has_error_finding(fviews(report.findings@)),
{
    let ghost fs = fviews(report.findings@);
    let mut i: usize = 0;
    while i < report.findings.len()
        invariant
            fs == fviews(report.findings@),
            i <= report.findings@.len(),
            forall|j: int| 0 <= j < i ==> (#[trigger] fs[j]).severity != Severity::Error,
        decreases report.findings.len() - i,
    {
        assert(fs[i as int] == report.findings@[i as int]@);
        match report.findings[i].severity {
            Severity::Error => {
                return true;
            },
            Severity::Warning => {},
        }
        i = i + 1;
    }
    false
}

pub open spec fn diagnostic_lines(ds: Seq<crate::conformance::DiagView>) -> Seq<char>
    decreases ds.len(),
{
    if ds.len() == 0 {
        Seq::empty()
    } else {
        diagnostic_lines(ds.drop_last()) + "  - "@ + ds.last().path + ": "@ + ds.last().message + "\n"@
    }
}

/// The text listing diagnostics under a label.
pub fn diagnostics_text(label: &str, diagnostics: &Vec<Diagnostic>) -> (r: String)
    ensures
        r@ == label@ + ":\n"@ + diagnostic_lines(dviews(diagnostics@)),
{
    let ghost ds = dviews(diagnostics@);
    let mut s = cat(label, ":\n");
    let ghost head = s@;
    let mut i: usize = 0;
    assert(ds.take(0) =~= Seq::<crate::conformance::DiagView>::empty());
    while i < diagnostics.len()
        invariant
            ds == dviews(diagnostics@),
            i <= diagnostics@.len(),
            head == label@ + ":\n"@,
            s@ == head + diagnostic_lines(ds.take(i as int)),
        decreases diagnostics.len() - i,
    {
        assert(ds.take(i + 1).drop_last() =~= ds.take(i as int));
        assert(ds.take(i + 1).last() == diagnostics@[i as int]@);
        let d = &diagnostics[i];
        s.append("  - ");
        s.append(d.path.as_str());
        s.append(": ");
        s.append(d.message.as_str());
        s.append("\n");
        assert(s@ =~= head + diagnostic_lines(ds.take(i + 1)));
        i = i + 1;
    }
    assert(ds.take(ds.len() as int) =~= ds);
    s
}

pub open spec fn finding_lines(fs: Seq<crate::analysis::FindingView>) -> Seq<char>
    decreases fs.len(),
{
    if fs.len() == 0 {
        Seq::empty()
    } else {
        finding_lines(fs.drop_last()) + "  - "@ + (match fs.last().severity {
            Severity::Error => "error"@,
            Severity::Warning => "warning"@,
        }) + " "@ + fs.last().path + ": "@ + fs.last().message + "\n"@
    }
}

/// The text of one manifest report under a label.
pub open spec fn manifest_report_text(label: Seq<char>, r: crate::analysis::ReportView) -> Seq<char> {
    label + ": "@ + r.path + "\n"@ + "  identity: "@ + r.identity + "\n"@ + "  signature: "@ + (
    if r.has_signature {
        "present"@
    } else {
        "absent"@
    }) + "\n"@ + "  attestations: "@ + crate::text::decimal(r.attestation_count) + "\n"@
        + "  provenance: "@ + crate::text::decimal(r.provenance_count) + "\n"@ + finding_lines(
        r.findings,
    )
}

/// The text of one manifest report under a label.
pub fn write_manifest_report(label: &str, report: &ManifestReport) -> (r: String)
    ensures
        r@ == manifest_report_text(label@, report@),
{
    let mut s = cat3(label, ": ", report.path.as_str());
    s.append("\n");
    s.append("  identity: ");
    s.append(report.identity.as_str());
    s.append("\n");
    s.append("  signature: ");
    s.append(if report.has_signature { "present" } else { "absent" });
    s.append("\n");
    s.append("  attestations: ");
    let a = usize_to_string(report.attestation_count);
    s.append(a.as_str());
    s.append("\n");
    s.append("  provenance: ");
    let p = usize_to_string(report.provenance_count);
    s.append(p.as_str());
    s.append("\n");
    let ghost head = s@;
    let ghost fs = fviews(report.findings@);
    let mut i: usize = 0;
    assert(fs.take(0) =~= Seq::<crate::analysis::FindingView>::empty());
    while i < report.findings.len()
        invariant
            fs == fviews(report.findings@),
            i <= report.findings@.len(),
            s@ == head + finding_lines(fs.take(i as int)),
        decreases report.findings.len() - i,
    {
        assert(fs.take(i + 1).drop_last() =~= fs.take(i as int));
        assert(fs.take(i + 1).last() == report.findings@[i as int]@);
        let f = &report.findings[i];
        s.append("  - ");
        s.append(severity_name(f.severity));
        s.append(" ");
        s.append(f.path.as_str());
        s.append(": ");
        s.append(f.message.as_str());
        s.append("\n");
        assert(s@ =~= head + finding_lines(fs.take(i + 1)));
        i = i + 1;
    }
    assert(fs.take(fs.len() as int) =~= fs);
    assert(s@ =~= manifest_report_text(label@, report@));
    s
}

pub open spec fn reports_text(rs: Seq<crate::analysis::ReportView>) -> Seq<char>
    decreases rs.len(),
{
    if rs.len() == 0 {
        Seq::empty()
    } else {
        reports_text(rs.drop_last()) + manifest_report_text("entry"@, rs.last())
    }
}

/// The text of a trust report: its status, then each manifest's report.
pub open spec fn trust_report_text(
    findings: Seq<crate::analysis::FindingView>,
    host: Option<crate::analysis::ReportView>,
    entries: Seq<crate::analysis::ReportView>,
) -> Seq<char> {
    "trust report: "@ + (if has_error_finding(findings) {
        "errors found"@
    } else if findings.len() == 0 {
        "ok"@
    } else {
        "warnings found"@
    }) + "\n"@ + if host is None && entries.len() == 0 {
        "no trust manifests found\n"@
    } else {
        (match host {
            Some(h) => manifest_report_text("host"@, h),
            None => Seq::empty(),
        }) + reports_text(entries)
    }
}

/// The text of a trust report, as `trust inspect` prints it.
pub fn write_trust_report(report: &CatalogTrustReport) -> (r: String)
    ensures
        r@ == trust_report_text(
            fviews(report.findings@),
            crate::trust::opt_report_view(report.host),
            crate::analysis::rviews(report.entries@),
        ),
{
    let status = if trust_report_has_errors(report) {
        "errors found"
    } else if report.findings.len() == 0 {
        "ok"
    } else {
        "warnings found"
    };
    let mut s = cat3("trust report: ", status, "\n");
    if report.host.is_none() && report.entries.len() == 0 {
        s.append("no trust manifests found\n");
        return s;
    }
    let ghost head = s@;
    match &report.host {
        Some(h) => {
            let t = write_manifest_report("host", h);
            s.append(t.as_str());
        },
        None => {},
    }
    let ghost mid = s@;
    let ghost rs = crate::analysis::rviews(report.entries@);
    let mut i: usize = 0;
    assert(rs.take(0) =~= Seq::<crate::analysis::ReportView>::empty());
    assert(mid =~= mid + reports_text(rs.take(0)));
    while i < report.entries.len()
        invariant
            rs == crate::analysis::rviews(report.entries@),
            i <= report.entries@.len(),
            s@ == mid + reports_text(rs.take(i as int)),
        decreases report.entries.len() - i,
    {
        assert(rs.take(i + 1).drop_last() =~= rs.take(i as int));
        assert(rs.take(i + 1).last() == report.entries@[i as int]@);
        let t = write_manifest_report("entry", &report.entries[i]);
        s.append(t.as_str());
        assert(s@ =~= mid + reports_text(rs.take(i + 1)));
        i = i + 1;
    }
    assert(rs.take(rs.len() as int) =~= rs);
    assert(s@ =~= trust_report_text(
        fviews(report.findings@),
        crate::trust::opt_report_view(report.host),
        crate::analysis::rviews(report.entries@),
    ));
    s
}

} // verus!
