//! What a launch is given, and how the command line of the game is filled in.

use vstd::prelude::*;
use crate::auth::ClientAccount;
use crate::error::LauncherError;
use crate::minecraft::java::DistributionSelection;
use crate::utils::assoc::{assoc_find, assoc_position, lemma_assoc_find};
use crate::utils::text::{chars_of, push_char, push_str, split_spec, string_of, views};
use crate::minecraft::rule_interpreter::Platform;
use crate::minecraft::version::{
    expand_arguments, jvm_prefix, push_all, v14_jvm_arguments, ArgumentDeclaration, VersionProfile,
};

verus! {

/// Everything a launch needs beyond the version profile.
pub struct StartParameter {
    pub java_distribution: DistributionSelection,
    pub jvm_args: Vec<String>,
    /// The heap size, in megabytes.
    pub memory: u64,
    pub custom_data_path: Option<String>,
    pub auth_player_name: String,
    pub auth_uuid: String,
    pub auth_access_token: String,
    pub auth_xuid: String,
    pub clientid: String,
    pub user_type: String,
    pub keep_launcher_open: bool,
    pub concurrent_downloads: u32,
    /// The client account, whose premium status lets a launch skip advertisements.
    pub client_account: Option<ClientAccount>,
    pub skip_advertisement: bool,
}

} // verus!

verus! {

/// Why a template in a command-line argument could not be filled in.
pub enum TemplateFault {
    /// A `${` that no `}` closes.
    Unclosed,
    /// A character that cannot stand in a parameter's name.
    BadChar(char),
    /// A parameter no value is given for.
    Unknown(Seq<char>),
}

/// A character a parameter's name may hold: an ASCII letter or digit, or `_`.
pub open spec fn is_name_char(c: char) -> bool {
    ('a' <= c && c <= 'z') || ('A' <= c && c <= 'Z') || c == '_' || ('0' <= c && c <= '9')
}

/// The first position from `i` on that holds no name character, or the end of `s`.
pub open spec fn name_end(s: Seq<char>, i: int) -> int
    decreases s.len() - i,
{
    if i >= s.len() {
        s.len() as int
    } else if !is_name_char(s[i]) {
        i
    } else {
        name_end(s, i + 1)
    }
}

pub proof fn lemma_name_end(s: Seq<char>, i: int)
    requires
        0 <= i <= s.len(),
    ensures
        i <= name_end(s, i) <= s.len(),
        forall|k: int| i <= k < name_end(s, i) ==> is_name_char(#[trigger] s[k]),
        name_end(s, i) < s.len() ==> !is_name_char(s[name_end(s, i)]),
    decreases s.len() - i,
{
    if i < s.len() && is_name_char(s[i]) {
        lemma_name_end(s, i + 1);
    }
}

/// `out` put in front of an expansion, or the fault unchanged.
pub open spec fn prepend(out: Seq<char>, r: Result<Seq<char>, TemplateFault>) -> Result<
    Seq<char>,
    TemplateFault,
> {
    match r {
        Ok(rest) => Ok(out + rest),
        Err(fault) => Err(fault),
    }
}

/// `s` with every `${name}` replaced by the value given for `name` (the first pair with that
/// key), read from the front; the first template that cannot be filled in is the fault.
pub open spec fn expand_templates(s: Seq<char>, values: Seq<(String, String)>) -> Result<
    Seq<char>,
    TemplateFault,
>
    decreases s.len(),
{
    if s.len() == 0 {
        Ok(Seq::empty())
    } else if s.len() >= 2 && s[0] == '$' && s[1] == '{' {
        proof {
            lemma_name_end(s, 2);
        }
        let end = name_end(s, 2);
        if end >= s.len() {
            Err(TemplateFault::Unclosed)
        } else if s[end] != '}' {
            Err(TemplateFault::BadChar(s[end]))
        } else {
            let name = s.subrange(2, end);
            match assoc_find(values, name) {
                None => Err(TemplateFault::Unknown(name)),
                Some(k) => prepend(values[k].1@, expand_templates(s.subrange(end + 1, s.len() as int), values)),
            }
        }
    } else {
        prepend(seq![s[0]], expand_templates(s.drop_first(), values))
    }
}

/// Whether `s` holds a `${` anywhere.
pub open spec fn has_template(s: Seq<char>) -> bool {
    exists|i: int| 0 <= i < s.len() - 1 && #[trigger] s[i] == '$' && s[i + 1] == '{'
}

/// An argument without templates is given as it is, whatever the values.
pub proof fn law_text_without_templates_stays(s: Seq<char>, values: Seq<(String, String)>)
    requires
        !has_template(s),
    ensures
        expand_templates(s, values) == Ok::<Seq<char>, TemplateFault>(s),
    decreases s.len(),
{
    if s.len() > 0 {
        let rest = s.drop_first();
        assert(!has_template(rest)) by {
            if has_template(rest) {
                let i = choose|i: int| 0 <= i < rest.len() - 1 && #[trigger] rest[i] == '$' && rest[i + 1] == '{';
                assert(s[i + 1] == '$' && s[i + 2] == '{');
            }
        }
        law_text_without_templates_stays(rest, values);
        if s.len() >= 2 && s[0] == '$' && s[1] == '{' {
            assert(has_template(s));
        }
        assert(expand_templates(s, values) == prepend(seq![s[0]], expand_templates(rest, values)));
        assert(seq![s[0]] + rest =~= s);
    } else {
        assert(s =~= Seq::<char>::empty());
    }
}

/// The error the launcher reports for a fault.
pub open spec fn reports(fault: TemplateFault, e: LauncherError) -> bool {
    match fault {
        TemplateFault::Unclosed => e matches LauncherError::InvalidVersionProfile(message)
            && message@ == "invalid template, missing '}'"@,
        TemplateFault::BadChar(c) => e matches LauncherError::InvalidVersionProfile(message)
            && message@ == "invalid character in template: '"@ + seq![c] + "'"@,
        TemplateFault::Unknown(name) => e matches LauncherError::UnknownTemplateParameter(message)
            && message@ == name,
    }
}

proof fn lemma_prepend_prepend(a: Seq<char>, b: Seq<char>, r: Result<Seq<char>, TemplateFault>)
    ensures
        prepend(a, prepend(b, r)) == prepend(a + b, r),
{
    if let Ok(rest) = r {
        assert(a + (b + rest) =~= (a + b) + rest);
    }
}

fn is_name(c: char) -> (r: bool)
    ensures
        r == is_name_char(c),
{
    ('a' <= c && c <= 'z') || ('A' <= c && c <= 'Z') || c == '_' || ('0' <= c && c <= '9')
}

/// Fills in the `${name}` templates of a command-line argument from `values`, as the launcher
/// does for every argument of the game's command line.
pub fn process_templates(input: &String, values: &Vec<(String, String)>) -> (r: Result<
    String,
    LauncherError,
>)
    ensures
        match (r, expand_templates(input@, values@)) {
            (Ok(output), Ok(expanded)) => output@ == expanded,
            (Err(e), Err(fault)) => reports(fault, e),
            _ => false,
        },
{
    let s = chars_of(input.as_str());
    let n = s.len();
    let mut output = String::new();
    let mut i: usize = 0;
    assert(s@.skip(0) =~= s@);
    assert(output@ + seq![] =~= output@);
    proof {
        lemma_prepend_prepend(output@, seq![], expand_templates(s@, values@));
    }
    assert(Seq::<char>::empty() + s@ =~= s@);
    while i < n
        invariant
            n == s@.len(),
            s@ == input@,
            i <= n,
            expand_templates(s@, values@) == prepend(output@, expand_templates(s@.skip(i as int), values@)),
        decreases n - i,
    {
        let ghost t = s@.skip(i as int);
        let c = s[i];
        if c == '$' && i + 1 < n && s[i + 1] == '{' {
            proof {
                lemma_name_end(t, 2);
            }
            let mut name: Vec<char> = Vec::new();
            let mut j: usize = i + 2;
            while j < n && is_name(s[j])
                invariant
                    n == s@.len(),
                    t == s@.skip(i as int),
                    i + 2 <= j <= n,
                    name_end(t, 2) == name_end(t, j - i),
                    name@ == s@.subrange(i + 2, j as int),
                decreases n - j,
            {
                name.push(s[j]);
                j = j + 1;
                assert(name@ =~= s@.subrange(i + 2, j as int));
            }
            assert(name_end(t, j - i) == j - i);
            if j >= n {
                let mut message = String::new();
                push_str(&mut message, "invalid template, missing '}'");
                return Err(LauncherError::InvalidVersionProfile(message));
            }
            if s[j] != '}' {
                let mut message = String::new();
                push_str(&mut message, "invalid character in template: '");
                push_char(&mut message, s[j]);
                push_str(&mut message, "'");
                assert(message@ =~= "invalid character in template: '"@ + seq![s@[j as int]] + "'"@);
                return Err(LauncherError::InvalidVersionProfile(message));
            }
            let key = string_of(name.as_slice());
            assert(t.subrange(2, j - i) =~= name@);
            proof {
                lemma_assoc_find(values@, key@);
            }
            match assoc_position(values, &key) {
                None => {
                    return Err(LauncherError::UnknownTemplateParameter(key));
                },
                Some(k) => {
                    let ghost before = output@;
                    push_str(&mut output, values[k].1.as_str());
                    assert(t.subrange(j - i + 1, t.len() as int) =~= s@.skip(j + 1));
                    proof {
                        lemma_prepend_prepend(
                            before,
                            values@[k as int].1@,
                            expand_templates(s@.skip(j + 1), values@),
                        );
                    }
                    i = j + 1;
                },
            }
        } else {
            let ghost before = output@;
            push_char(&mut output, c);
            assert(t.drop_first() =~= s@.skip(i + 1));
            proof {
                lemma_prepend_prepend(before, seq![c], expand_templates(s@.skip(i + 1), values@));
            }
            assert(before + seq![c] =~= output@);
            i = i + 1;
        }
    }
    assert(s@.skip(n as int) =~= Seq::<char>::empty());
    assert(output@ + Seq::<char>::empty() =~= output@);
    Ok(output)
}

} // verus!

verus! {

/// The JVM's part of the command line as a profile declares it, and the error that cut it
/// short, if any.
pub open spec fn jvm_part(
    decl: ArgumentDeclaration,
    memory: u64,
    features: Seq<String>,
    platform: Platform,
) -> (Seq<Seq<char>>, Option<LauncherError>) {
    match decl {
        ArgumentDeclaration::V14(_) => (jvm_prefix(memory as nat) + v14_jvm_arguments(), None),
        ArgumentDeclaration::V21(d) => {
            let jvm = expand_arguments(d.arguments.jvm@, features, platform);
            (jvm_prefix(memory as nat) + jvm.0, jvm.1)
        },
    }
}

/// Why the command line could not be put together.
pub enum ArgumentFault {
    /// The rules of an argument could not be decided.
    Rule(LauncherError),
    NoMainClass,
    /// An old profile without its line of game arguments.
    NoGameArguments,
}

/// The error the launcher reports for such a fault.
pub open spec fn reports_argument_fault(fault: ArgumentFault, e: LauncherError) -> bool {
    match fault {
        ArgumentFault::Rule(error) => e == error,
        ArgumentFault::NoMainClass => e matches LauncherError::InvalidVersionProfile(message)
            && message@ == "Main class unspecified"@,
        ArgumentFault::NoGameArguments => e matches LauncherError::InvalidVersionProfile(message)
            && message@ == "no game arguments specified"@,
    }
}

/// The command line before its templates are filled in: the JVM's arguments, the custom ones,
/// the main class, then the game's arguments; or the first fault met on the way.
pub open spec fn raw_arguments_spec(
    profile: VersionProfile,
    parameter: StartParameter,
    features: Seq<String>,
    platform: Platform,
) -> Result<Seq<Seq<char>>, ArgumentFault> {
    let jvm = jvm_part(profile.arguments, parameter.memory, features, platform);
    let front = jvm.0 + views(parameter.jvm_args@);
    match jvm.1 {
        Some(e) => Err(ArgumentFault::Rule(e)),
        None => match profile.main_class {
            None => Err(ArgumentFault::NoMainClass),
            Some(main_class) => match profile.arguments {
                ArgumentDeclaration::V14(d) => match d.minecraft_arguments {
                    None => Err(ArgumentFault::NoGameArguments),
                    Some(line) => Ok(front.push(main_class@) + split_spec(line@, ' ')),
                },
                ArgumentDeclaration::V21(d) => {
                    let game = expand_arguments(d.arguments.game@, features, platform);
                    match game.1 {
                        Some(e) => Err(ArgumentFault::Rule(e)),
                        None => Ok(front.push(main_class@) + game.0),
                    }
                },
            },
        },
    }
}

/// The command line before its templates are filled in, as `raw_arguments_spec` describes it.
pub fn raw_arguments(
    profile: &VersionProfile,
    parameter: &StartParameter,
    features: &Vec<String>,
    platform: &Platform,
) -> (r: Result<Vec<String>, LauncherError>)
    ensures
        match (r, raw_arguments_spec(*profile, *parameter, features@, *platform)) {
            (Ok(v), Ok(expected)) => views(v@) == expected,
            (Err(e), Err(fault)) => reports_argument_fault(fault, e),
            _ => false,
        },
{
    let mut command_arguments: Vec<String> = Vec::new();
    let jvm = profile.arguments.add_jvm_args_to_vec(&mut command_arguments, parameter, features, platform);
    assert(views(Seq::<String>::empty()) =~= Seq::<Seq<char>>::empty());
    if let Err(e) = jvm {
        return Err(e);
    }
    assert(views(command_arguments@) =~= jvm_part(profile.arguments, parameter.memory, features@, *platform).0);
    push_all(&mut command_arguments, &parameter.jvm_args);
    let main_class = match &profile.main_class {
        Some(main_class) => main_class.clone(),
        None => {
            let mut message = String::new();
            push_str(&mut message, "Main class unspecified");
            return Err(LauncherError::InvalidVersionProfile(message));
        },
    };
    let ghost before = views(command_arguments@);
    command_arguments.push(main_class);
    assert(views(command_arguments@) =~= before.push(main_class@));
    match profile.arguments.add_game_args_to_vec(&mut command_arguments, features, platform) {
        Ok(()) => Ok(command_arguments),
        Err(e) => Err(e),
    }
}

/// Each argument with its templates filled in, or the fault of the first one that cannot be.
pub open spec fn fill_spec(args: Seq<Seq<char>>, values: Seq<(String, String)>) -> Result<
    Seq<Seq<char>>,
    TemplateFault,
>
    decreases args.len(),
{
    if args.len() == 0 {
        Ok(Seq::empty())
    } else {
        match fill_spec(args.drop_last(), values) {
            Err(fault) => Err(fault),
            Ok(front) => match expand_templates(args.last(), values) {
                Err(fault) => Err(fault),
                Ok(x) => Ok(front.push(x)),
            },
        }
    }
}

proof fn lemma_fill_fault_stays(args: Seq<Seq<char>>, n: int, values: Seq<(String, String)>)
    requires
        0 <= n <= args.len(),
        fill_spec(args.take(n), values) is Err,
    ensures
        fill_spec(args, values) == fill_spec(args.take(n), values),
    decreases args.len() - n,
{
    if n < args.len() {
        assert(args.take(n + 1).drop_last() =~= args.take(n));
        lemma_fill_fault_stays(args, n + 1, values);
    } else {
        assert(args.take(n) =~= args);
    }
}

/// Fills in the templates of every argument, as launching does before it starts the game.
pub fn fill_templates(args: &Vec<String>, values: &Vec<(String, String)>) -> (r: Result<
    Vec<String>,
    LauncherError,
>)
    ensures
        match (r, fill_spec(views(args@), values@)) {
            (Ok(filled), Ok(expected)) => views(filled@) == expected,
            (Err(e), Err(fault)) => reports(fault, e),
            _ => false,
        },
{
    let ghost all = views(args@);
    let mut mapped: Vec<String> = Vec::new();
    let mut i: usize = 0;
    assert(all.take(0) =~= Seq::<Seq<char>>::empty());
    assert(views(mapped@) =~= Seq::<Seq<char>>::empty());
    while i < args.len()
        invariant
            all == views(args@),
            i <= args.len(),
            fill_spec(all.take(i as int), values@) == Ok::<Seq<Seq<char>>, TemplateFault>(views(mapped@)),
        decreases args.len() - i,
    {
        assert(all.take(i + 1).drop_last() =~= all.take(i as int));
        assert(all.take(i + 1).last() == args@[i as int]@);
        match process_templates(&args[i], values) {
            Ok(x) => {
                let ghost before = views(mapped@);
                mapped.push(x);
                assert(views(mapped@) =~= before.push(x@));
            },
            Err(e) => {
                proof {
                    lemma_fill_fault_stays(all, i + 1, values@);
                }
                return Err(e);
            },
        }
        i = i + 1;
    }
    assert(all.take(args.len() as int) =~= all);
    Ok(mapped)
}

} // verus!

verus! {

/// Where a launch puts things, as absolute paths.
pub struct LaunchPaths {
    pub game_directory: String,
    pub assets_root: String,
    pub natives_directory: String,
}

/// The keys and values of a list of pairs.
pub open spec fn pair_views(l: Seq<(String, String)>) -> Seq<(Seq<char>, Seq<char>)> {
    l.map_values(|p: (String, String)| (p.0@, p.1@))
}

/// The parameters a game's command line may name, and their values.
pub open spec fn template_values_spec(
    profile: VersionProfile,
    parameter: StartParameter,
    paths: LaunchPaths,
    asset_index_name: Seq<char>,
    class_path: Seq<char>,
    launcher_version: Seq<char>,
) -> Seq<(Seq<char>, Seq<char>)> {
    seq![
        ("auth_player_name"@, parameter.auth_player_name@),
        ("version_name"@, profile.id@),
        ("game_directory"@, paths.game_directory@),
        ("assets_root"@, paths.assets_root@),
        ("assets_index_name"@, asset_index_name),
        ("auth_uuid"@, parameter.auth_uuid@),
        ("auth_access_token"@, parameter.auth_access_token@),
        ("user_type"@, parameter.user_type@),
        ("version_type"@, profile.version_type@),
        ("natives_directory"@, paths.natives_directory@),
        ("launcher_name"@, "LiquidLauncher"@),
        ("launcher_version"@, launcher_version),
        ("classpath"@, class_path),
        ("user_properties"@, "{}"@),
        ("clientid"@, parameter.clientid@),
        ("auth_xuid"@, parameter.auth_xuid@),
    ]
}

fn pair(key: &str, value: &String) -> (p: (String, String))
    ensures
        p.0@ == key@,
        p.1@ == value@,
{
    let mut k = String::new();
    push_str(&mut k, key);
    (k, value.clone())
}

fn pair_str(key: &str, value: &str) -> (p: (String, String))
    ensures
        p.0@ == key@,
        p.1@ == value@,
{
    let mut k = String::new();
    push_str(&mut k, key);
    let mut v = String::new();
    push_str(&mut v, value);
    (k, v)
}

/// The value of every parameter the command line of the game may name.
pub fn template_values(
    profile: &VersionProfile,
    parameter: &StartParameter,
    paths: &LaunchPaths,
    asset_index_name: &String,
    class_path: &String,
    launcher_version: &str,
) -> (r: Vec<(String, String)>)
    ensures
        pair_views(r@) == template_values_spec(
            *profile,
            *parameter,
            *paths,
            asset_index_name@,
            class_path@,
            launcher_version@,
        ),
{
    let mut values: Vec<(String, String)> = Vec::new();
    values.push(pair("auth_player_name", &parameter.auth_player_name));
    values.push(pair("version_name", &profile.id));
    values.push(pair("game_directory", &paths.game_directory));
    values.push(pair("assets_root", &paths.assets_root));
    values.push(pair("assets_index_name", asset_index_name));
    values.push(pair("auth_uuid", &parameter.auth_uuid));
    values.push(pair("auth_access_token", &parameter.auth_access_token));
    values.push(pair("user_type", &parameter.user_type));
    values.push(pair("version_type", &profile.version_type));
    values.push(pair("natives_directory", &paths.natives_directory));
    values.push(pair_str("launcher_name", "LiquidLauncher"));
    values.push(pair_str("launcher_version", launcher_version));
    values.push(pair("classpath", class_path));
    values.push(pair_str("user_properties", "{}"));
    values.push(pair("clientid", &parameter.clientid));
    values.push(pair("auth_xuid", &parameter.auth_xuid));
    assert(pair_views(values@) =~= template_values_spec(
        *profile,
        *parameter,
        *paths,
        asset_index_name@,
        class_path@,
        launcher_version@,
    ));
    values
}

/// The game's command line: the arguments the profile and the custom settings give, with every
/// template filled in from `values`.
pub fn command_line(
    profile: &VersionProfile,
    parameter: &StartParameter,
    features: &Vec<String>,
    platform: &Platform,
    values: &Vec<(String, String)>,
) -> (r: Result<Vec<String>, LauncherError>)
    ensures
        match raw_arguments_spec(*profile, *parameter, features@, *platform) {
            Err(fault) => r matches Err(e) && reports_argument_fault(fault, e),
            Ok(raw) => match (r, fill_spec(raw, values@)) {
                (Ok(filled), Ok(expected)) => views(filled@) == expected,
                (Err(e), Err(fault)) => reports(fault, e),
                _ => false,
            },
        },
{
    let raw = raw_arguments(profile, parameter, features, platform);
    match raw {
        Err(e) => Err(e),
        Ok(raw) => fill_templates(&raw, values),
    }
}

} // verus!
