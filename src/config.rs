use vstd::prelude::*;

verus! {

/// Settings of a compilation, each left unset until chosen.
#[derive(Debug)]
pub struct CompilerBuilder {
    pub measure: Option<bool>,
    pub verbosity: Option<u8>,
    pub phase: Option<String>,
}

/// The settings a compilation runs with, defaults filled in: no timing,
/// verbosity 0, and an empty stop phase (run every phase).
#[derive(Debug)]
pub struct CompilerSettings {
    pub measure: bool,
    pub verbosity: u8,
    pub stop_phase: String,
}

/// The outcome of reading the command line: the settings and the input
/// files in the order given.
#[derive(Debug)]
pub struct ArgParse {
    pub builder: CompilerBuilder,
    pub files: Vec<String>,
}

/// Why a command line was refused.
#[derive(Debug, PartialEq, Eq)]
pub enum ArgError {
    /// An argument starting with `--` that names no flag.
    UnknownFlag(String),
    /// `--phase` as the last argument.
    MissingPhaseArgument,
    /// The word after `--phase` names no phase.
    UnrecognizedPhase(String),
}

/// What a command line means, over character sequences.
pub struct ArgsModel {
    pub measure: Option<bool>,
    pub verbosity: Option<u8>,
    pub phase: Option<Seq<char>>,
    pub files: Seq<Seq<char>>,
}

/// The failures of [`ArgError`], over character sequences.
pub enum ArgFailure {
    UnknownFlag(Seq<char>),
    MissingPhaseArgument,
    UnrecognizedPhase(Seq<char>),
}

pub open spec fn opt_view(o: Option<String>) -> Option<Seq<char>> {
    match o {
        Some(s) => Some(s@),
        None => None,
    }
}

impl CompilerBuilder {
    pub open spec fn model(&self, files: Seq<Seq<char>>) -> ArgsModel {
        ArgsModel {
            measure: self.measure,
            verbosity: self.verbosity,
            phase: opt_view(self.phase),
            files,
        }
    }
}

impl ArgParse {
    pub open spec fn model(&self) -> ArgsModel {
        self.builder.model(self.files@.map_values(|s: String| s@))
    }
}

impl ArgError {
    pub open spec fn view(&self) -> ArgFailure {
        match self {
            ArgError::UnknownFlag(s) => ArgFailure::UnknownFlag(s@),
            ArgError::MissingPhaseArgument => ArgFailure::MissingPhaseArgument,
            ArgError::UnrecognizedPhase(s) => ArgFailure::UnrecognizedPhase(s@),
        }
    }
}

/// An argument that is a flag rather than an input file.
pub open spec fn is_flag(a: Seq<char>) -> bool {
    2 <= a.len() && a.subrange(0, 2) == "--"@
}

/// The phase that a `--phase` argument names, if any.
pub open spec fn phase_named(a: Seq<char>) -> Option<Seq<char>> {
    if a == "parse"@ {
        Some("parse"@)
    } else if a == "elab"@ {
        Some("elaborate"@)
    } else if a == "mono"@ {
        Some("monomorphize"@)
    } else if a == "flat"@ {
        Some("flatten"@)
    } else {
        None
    }
}

/// Reads `args` from position `i` on, starting from the settings `st`:
/// flags set settings left to right (a later one overrides an earlier one),
/// other arguments are input files.
pub open spec fn parse_from(args: Seq<Seq<char>>, i: int, st: ArgsModel) -> Result<ArgsModel, ArgFailure>
    decreases args.len() - i,
{
    if i < 0 || i >= args.len() {
        Ok(st)
    } else {
        let a = args[i];
        if !is_flag(a) {
            parse_from(args, i + 1, ArgsModel { files: st.files.push(a), ..st })
        } else if a == "--silent"@ {
            parse_from(args, i + 1, ArgsModel { verbosity: Some(0u8), ..st })
        } else if a == "--v"@ {
            parse_from(args, i + 1, ArgsModel { verbosity: Some(1u8), ..st })
        } else if a == "--vv"@ {
            parse_from(args, i + 1, ArgsModel { verbosity: Some(2u8), ..st })
        } else if a == "--measure"@ {
            parse_from(args, i + 1, ArgsModel { measure: Some(true), ..st })
        } else if a == "--phase"@ {
            if i + 1 >= args.len() {
                Err(ArgFailure::MissingPhaseArgument)
            } else {
                match phase_named(args[i + 1]) {
                    Some(p) => parse_from(args, i + 2, ArgsModel { phase: Some(p), ..st }),
                    None => Err(ArgFailure::UnrecognizedPhase(args[i + 1])),
                }
            }
        } else {
            Err(ArgFailure::UnknownFlag(a))
        }
    }
}

/// The settings before any flag.
pub open spec fn unset_model() -> ArgsModel {
    ArgsModel { measure: None, verbosity: None, phase: None, files: Seq::empty() }
}

/// A whole command line; the first argument is the program's name.
pub open spec fn parse_args(args: Seq<Seq<char>>) -> Result<ArgsModel, ArgFailure> {
    parse_from(args, 1, unset_model())
}

/// Relies on str::starts_with: true exactly when `prefix` is a prefix of `s`.
#[verifier::external_body]
fn starts_with(s: &str, prefix: &str) -> (r: bool)
    ensures
        r == (prefix@.len() <= s@.len() && s@.subrange(0, prefix@.len() as int) == prefix@),
{
    s.starts_with(prefix)
}

fn is_text(s: &String, lit: &str) -> (r: bool)
    ensures
        r == (s@ == lit@),
{
    let t = lit.to_owned();
    s.eq(&t)
}

fn phase_of(a: &String) -> (r: Option<String>)
    ensures
        opt_view(r) == phase_named(a@),
{
    if is_text(a, "parse") {
        Some("parse".to_owned())
    } else if is_text(a, "elab") {
        Some("elaborate".to_owned())
    } else if is_text(a, "mono") {
        Some("monomorphize".to_owned())
    } else if is_text(a, "flat") {
        Some("flatten".to_owned())
    } else {
        None
    }
}

impl CompilerBuilder {
    /// A builder with every setting unset.
    pub fn new() -> (r: CompilerBuilder)
        ensures
            r.measure is None,
            r.verbosity is None,
            r.phase is None,
    {
        CompilerBuilder { measure: None, verbosity: None, phase: None }
    }

    /// Resolves the settings: unset ones take their defaults.
    pub fn build(self) -> (r: CompilerSettings)
        ensures
            r.measure == match self.measure {
                Some(m) => m,
                None => false,
            },
            r.verbosity == match self.verbosity {
                Some(v) => v,
                None => 0u8,
            },
            r.stop_phase@ == match self.phase {
                Some(p) => p@,
                None => Seq::<char>::empty(),
            },
    {
        let measure = match self.measure {
            Some(m) => m,
            None => false,
        };
        let verbosity: u8 = match self.verbosity {
            Some(v) => v,
            None => 0,
        };
        let stop_phase = match self.phase {
            Some(p) => p,
            None => String::new(),
        };
        CompilerSettings { measure, verbosity, stop_phase }
    }

    pub fn verbosity(self, val: u8) -> (r: Self)
        ensures
            r.verbosity == Some(val),
            r.measure == self.measure,
            r.phase == self.phase,
    {
        CompilerBuilder { verbosity: Some(val), ..self }
    }

    pub fn phase(self, val: String) -> (r: Self)
        ensures
            r.phase == Some(val),
            r.measure == self.measure,
            r.verbosity == self.verbosity,
    {
        CompilerBuilder { phase: Some(val), ..self }
    }

    pub fn measure(self, val: bool) -> (r: Self)
        ensures
            r.measure == Some(val),
            r.verbosity == self.verbosity,
            r.phase == self.phase,
    {
        CompilerBuilder { measure: Some(val), ..self }
    }
}

impl Default for CompilerBuilder {
    fn default() -> (r: CompilerBuilder)
        ensures
            r.measure is None,
            r.verbosity is None,
            r.phase is None,
    {
        CompilerBuilder::new()
    }
}

impl ArgParse {
    /// Reads a command line whose first argument is the program's name:
    /// `--silent`, `--v`, `--vv` set the verbosity to 0, 1, 2, `--measure`
    /// turns timing on, `--phase` takes the next argument as the phase to
    /// stop after, and every argument not starting with `--` is an input file.
    pub fn parse(args: &Vec<String>) -> (r: Result<ArgParse, ArgError>)
        ensures
            match parse_args(args@.map_values(|s: String| s@)) {
                Ok(m) => r is Ok && r->Ok_0.model() == m,
                Err(f) => r is Err && r->Err_0.view() == f,
            },
    {
        let ghost av = args@.map_values(|s: String| s@);
        let mut files: Vec<String> = Vec::new();
        let mut builder = CompilerBuilder::new();
        let mut i: usize = 1;
        assert(files@.map_values(|s: String| s@) =~= Seq::<Seq<char>>::empty());
        while i < args.len()
            invariant
                1 <= i,
                av == args@.map_values(|s: String| s@),
                parse_from(av, i as int, builder.model(files@.map_values(|s: String| s@)))
                    == parse_args(av),
            decreases args.len() - i,
        {
            let item = &args[i];
            let ghost st = builder.model(files@.map_values(|s: String| s@));
            assert(av[i as int] == item@);
            proof {
                reveal_strlit("--");
            }
            if !starts_with(item.as_str(), "--") {
                let ghost old_files = files@;
                files.push(item.clone());
                assert(files@.map_values(|s: String| s@) =~= old_files.map_values(|s: String| s@).push(item@));
                i = i + 1;
            } else if is_text(item, "--silent") {
                builder = builder.verbosity(0);
                i = i + 1;
            } else if is_text(item, "--v") {
                builder = builder.verbosity(1);
                i = i + 1;
            } else if is_text(item, "--vv") {
                builder = builder.verbosity(2);
                i = i + 1;
            } else if is_text(item, "--measure") {
                builder = builder.measure(true);
                i = i + 1;
            } else if is_text(item, "--phase") {
                if i + 1 >= args.len() {
                    return Err(ArgError::MissingPhaseArgument);
                }
                let next = &args[i + 1];
                assert(av[i + 1] == next@);
                match phase_of(next) {
                    Some(p) => {
                        builder = builder.phase(p);
                        i = i + 2;
                    },
                    None => {
                        return Err(ArgError::UnrecognizedPhase(next.clone()));
                    },
                }
            } else {
                return Err(ArgError::UnknownFlag(item.clone()));
            }
        }
        let r = ArgParse { builder, files };
        assert(r.model() == builder.model(files@.map_values(|s: String| s@)));
        Ok(r)
    }
}

} // verus!
