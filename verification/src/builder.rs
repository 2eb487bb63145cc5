//! The segment builder: detection gates everything; on a match the
//! configured template is parsed and resolved, and the expensive external
//! probes run only for the compiler variables the template actually
//! references. Every failure downgrades the whole segment to "absent",
//! with its reason kept for diagnostics; nothing here panics the host.

use vstd::prelude::*;
use vstd::string::*;
use crate::detect::{is_match, spec_matches, DetectionSpec, DirEntry};
use crate::errors::{FormatError, SpecError};
use crate::probe::{classify_compiler, spec_classify, CommandRunner};
use crate::render::{
    pairs_view, render, segs_view, values_view, Providers, ResolvedSegment, SpecProviders,
    SpecSegment, spec_render,
};
use crate::template::{parse_template, pieces_view, references, spec_parse, spec_references, SpecPiece};
use crate::version::{format_version, spec_format_version, VersionSpec};

verus! {

/// The configuration this module consumes, as the host's configuration
/// loader hands it in.
#[derive(Debug)]
pub struct Config {
    /// The detection signals that decide whether a C project is present.
    pub detection: DetectionSpec,
    /// The display symbol bound to the `symbol` meta variable.
    pub symbol: String,
    /// The opaque style handle bound to the `style` style variable.
    pub style: String,
    /// The format template of the rendered segment.
    pub format: String,
    /// Precision of the displayed compiler version.
    pub version_format: VersionSpec,
}

impl Default for Config {
    /// The stock configuration of the C module: detect `.c` and `.h`
    /// files, show a styled `C ` symbol after a plain prefix.
    fn default() -> (c: Config)
        ensures
            c.detection.extensions@.len() == 2,
            c.detection.extensions@[0]@ == "c"@,
            c.detection.extensions@[1]@ == "h"@,
            c.detection.filenames@.len() == 0,
            c.detection.foldernames@.len() == 0,
            c.symbol@ == "C "@,
            c.style@ == "bold fg=149"@,
            c.format@ == "via $symbol($style)"@,
            c.version_format.components == 3,
    {
        Config {
            detection: DetectionSpec {
                extensions: vec![String::from_str("c"), String::from_str("h")],
                filenames: Vec::new(),
                foldernames: Vec::new(),
            },
            symbol: String::from_str("C "),
            style: String::from_str("bold fg=149"),
            format: String::from_str("via $symbol($style)"),
            version_format: VersionSpec { components: 3 },
        }
    }
}

/// What one resolution pass yields to the host prompt composer.
#[derive(Debug)]
pub enum ModuleOutcome {
    /// The ordered styled segments of the rendered module.
    Rendered(Vec<ResolvedSegment>),
    /// No project detected (or no listing available): the module is absent.
    NoMatch,
    /// Resolution failed; the segment is absent and the reason is kept for
    /// the host's diagnostic log.
    Failed(FormatError),
}

/// Mathematical image of a `ModuleOutcome`.
#[verifier::ext_equal]
pub enum SpecOutcome {
    Rendered(Seq<SpecSegment>),
    NoMatch,
    Failed(SpecError),
}

impl View for ModuleOutcome {
    type V = SpecOutcome;

    open spec fn view(&self) -> SpecOutcome {
        match self {
            ModuleOutcome::Rendered(v) => SpecOutcome::Rendered(segs_view(v@)),
            ModuleOutcome::NoMatch => SpecOutcome::NoMatch,
            ModuleOutcome::Failed(e) => SpecOutcome::Failed(e@),
        }
    }
}

impl ModuleOutcome {
    /// The host-facing contract: an ordered segment sequence, or an
    /// explicit absent value.
    pub fn segments(self) -> (r: Option<Vec<ResolvedSegment>>)
        ensures
            match r {
                Some(v) => self@ == SpecOutcome::Rendered(segs_view(v@)),
                None => !(self@ is Rendered),
            },
    {
        match self {
            ModuleOutcome::Rendered(v) => Some(v),
            _ => None,
        }
    }
}

/// View of an optional listing argument.
pub open spec fn listing_view(l: Option<&Vec<DirEntry>>) -> Option<Seq<DirEntry>> {
    match l {
        Some(v) => Some(v@),
        None => None,
    }
}

/// View of an optional probe result.
pub open spec fn probe_view(p: Option<Result<String, String>>) -> Option<
    Result<Seq<char>, Seq<char>>,
> {
    match p {
        None => None,
        Some(Ok(s)) => Some(Ok(s@)),
        Some(Err(m)) => Some(Err(m@)),
    }
}

/// The `compiler_name` answer for a probe outcome.
pub open spec fn spec_name_binding(pr: Result<Seq<char>, Seq<char>>) -> Result<
    Seq<char>,
    SpecError,
> {
    match pr {
        Ok(out) => Ok(spec_classify(out)),
        Err(m) => Err(SpecError::Probe(m)),
    }
}

/// The `compiler_version` answer for a probe outcome.
pub open spec fn spec_version_binding(pr: Result<Seq<char>, Seq<char>>, n: nat) -> Result<
    Seq<char>,
    SpecError,
> {
    match pr {
        Ok(out) => match spec_format_version(out, n) {
            Some(v) => Ok(v),
            None => Err(SpecError::Version),
        },
        Err(m) => Err(SpecError::Probe(m)),
    }
}

/// The value-provider bindings of one pass: an entry exists only for a
/// compiler variable that the parsed template references and whose probe
/// result was supplied.
pub open spec fn spec_value_bindings(
    ps: Seq<SpecPiece>,
    cfg: Config,
    np: Option<Result<Seq<char>, Seq<char>>>,
    vp: Option<Result<Seq<char>, Seq<char>>>,
) -> Seq<(Seq<char>, Result<Seq<char>, SpecError>)> {
    let s0 = Seq::<(Seq<char>, Result<Seq<char>, SpecError>)>::empty();
    let s1 = if spec_references(ps, "compiler_name"@) && np is Some {
        s0.push(("compiler_name"@, spec_name_binding(np->0)))
    } else {
        s0
    };
    if spec_references(ps, "compiler_version"@) && vp is Some {
        s1.push(
            (
                "compiler_version"@,
                spec_version_binding(vp->0, cfg.version_format.components as nat),
            ),
        )
    } else {
        s1
    }
}

/// The whole provider chain of one pass.
pub open spec fn spec_providers(
    cfg: Config,
    ps: Seq<SpecPiece>,
    np: Option<Result<Seq<char>, Seq<char>>>,
    vp: Option<Result<Seq<char>, Seq<char>>>,
) -> SpecProviders {
    SpecProviders {
        meta: seq![("symbol"@, cfg.symbol@)],
        styles: seq![("style"@, cfg.style@)],
        values: spec_value_bindings(ps, cfg, np, vp),
    }
}

/// What a whole pass yields, as a function of the listing, the
/// configuration, and the two probe outcomes.
pub open spec fn spec_module(
    listing: Option<Seq<DirEntry>>,
    cfg: Config,
    np: Option<Result<Seq<char>, Seq<char>>>,
    vp: Option<Result<Seq<char>, Seq<char>>>,
) -> SpecOutcome {
    match listing {
        None => SpecOutcome::NoMatch,
        Some(es) => if !spec_matches(es, cfg.detection) {
            SpecOutcome::NoMatch
        } else {
            match spec_parse(cfg.format@) {
                Err(_) => SpecOutcome::Failed(SpecError::Parse),
                Ok(ps) => match spec_render(ps, spec_providers(cfg, ps, np, vp)) {
                    Ok(segs) => SpecOutcome::Rendered(segs),
                    Err(e) => SpecOutcome::Failed(e),
                },
            }
        },
    }
}

/// The compiler-name probe is owed exactly when a project is detected and
/// the parsed template references `compiler_name`.
pub open spec fn spec_needs_name(listing: Option<Seq<DirEntry>>, cfg: Config) -> bool {
    match listing {
        None => false,
        Some(es) => spec_matches(es, cfg.detection) && match spec_parse(cfg.format@) {
            Ok(ps) => spec_references(ps, "compiler_name"@),
            Err(_) => false,
        },
    }
}

/// Likewise for `compiler_version`.
pub open spec fn spec_needs_version(listing: Option<Seq<DirEntry>>, cfg: Config) -> bool {
    match listing {
        None => false,
        Some(es) => spec_matches(es, cfg.detection) && match spec_parse(cfg.format@) {
            Ok(ps) => spec_references(ps, "compiler_version"@),
            Err(_) => false,
        },
    }
}

/// One resolution pass with the probe outcomes supplied as arguments: the
/// result is pinned for every value they may take.
pub fn resolve_with_probes(
    listing: Option<&Vec<DirEntry>>,
    config: &Config,
    name_probe: Option<Result<String, String>>,
    version_probe: Option<Result<String, String>>,
) -> (r: ModuleOutcome)
    ensures
        r@ == spec_module(
            listing_view(listing),
            *config,
            probe_view(name_probe),
            probe_view(version_probe),
        ),
{
    let ghost np = probe_view(name_probe);
    let ghost vp = probe_view(version_probe);
    let l = match listing {
        Some(l) => l,
        None => {
            return ModuleOutcome::NoMatch;
        },
    };
    if !is_match(l, &config.detection) {
        return ModuleOutcome::NoMatch;
    }
    let pieces = match parse_template(config.format.as_str()) {
        Ok(ps) => ps,
        Err(e) => {
            return ModuleOutcome::Failed(e);
        },
    };
    let ghost psv = pieces_view(pieces@);
    let mut values: Vec<(String, Result<String, FormatError>)> = Vec::new();
    if references(&pieces, "compiler_name") {
        match name_probe {
            Some(Ok(out)) => {
                values.push(
                    (String::from_str("compiler_name"), Ok(classify_compiler(out.as_str()))),
                );
            },
            Some(Err(m)) => {
                values.push((String::from_str("compiler_name"), Err(FormatError::Probe(m))));
            },
            None => {},
        }
    }
    if references(&pieces, "compiler_version") {
        match version_probe {
            Some(Ok(out)) => {
                let vr = format_version(out.as_str(), &config.version_format);
                values.push((String::from_str("compiler_version"), vr));
            },
            Some(Err(m)) => {
                values.push((String::from_str("compiler_version"), Err(FormatError::Probe(m))));
            },
            None => {},
        }
    }
    proof {
        assert(values_view(values@) =~= spec_value_bindings(psv, *config, np, vp));
    }
    let providers = Providers {
        meta: vec![(String::from_str("symbol"), config.symbol.clone())],
        styles: vec![(String::from_str("style"), config.style.clone())],
        values,
    };
    proof {
        assert(providers@.meta =~= spec_providers(*config, psv, np, vp).meta);
        assert(providers@.styles =~= spec_providers(*config, psv, np, vp).styles);
        assert(providers@ =~= spec_providers(*config, psv, np, vp));
    }
    match render(&pieces, &providers) {
        Ok(segs) => ModuleOutcome::Rendered(segs),
        Err(e) => ModuleOutcome::Failed(e),
    }
}

/// The whole module, one pass: detect, parse, probe lazily, resolve.
///
/// The contract states the laziness this design exists for: when neither
/// compiler variable is owed a probe — no listing, no match, a malformed
/// template, or a template that references neither — the runner is left
/// exactly as it was (zero probe invocations), and the outcome equals the
/// probe-free resolution. In every case the outcome is the pure function
/// `spec_module` of the inputs and of some probe outcomes, a probe having
/// been run only when it was owed.
pub fn module<R: CommandRunner>(
    listing: Option<&Vec<DirEntry>>,
    config: &Config,
    runner: &mut R,
) -> (r: ModuleOutcome)
    ensures
        exists|np: Option<Result<Seq<char>, Seq<char>>>, vp: Option<Result<Seq<char>, Seq<char>>>|
            {
                &&& r@ == spec_module(listing_view(listing), *config, np, vp)
                &&& (np is Some ==> spec_needs_name(listing_view(listing), *config))
                &&& (vp is Some ==> spec_needs_version(listing_view(listing), *config))
            },
        !spec_needs_name(listing_view(listing), *config) && !spec_needs_version(
            listing_view(listing),
            *config,
        ) ==> *final(runner) == *old(runner) && r@ == spec_module(
            listing_view(listing),
            *config,
            None,
            None,
        ),
{
    let ghost lv = listing_view(listing);
    let mut needs_name = false;
    let mut needs_version = false;
    match listing {
        Some(l) => {
            if is_match(l, &config.detection) {
                match parse_template(config.format.as_str()) {
                    Ok(pieces) => {
                        needs_name = references(&pieces, "compiler_name");
                        needs_version = references(&pieces, "compiler_version");
                    },
                    Err(_) => {},
                }
            }
        },
        None => {},
    }
    proof {
        assert(needs_name == spec_needs_name(lv, *config));
        assert(needs_version == spec_needs_version(lv, *config));
    }
    let name_probe: Option<Result<String, String>> = if needs_name {
        let args = vec![String::from_str("--version")];
        Some(runner.run("cc", &args))
    } else {
        None
    };
    let version_probe: Option<Result<String, String>> = if needs_version {
        let args = vec![String::from_str("-dumpversion")];
        Some(runner.run("cc", &args))
    } else {
        None
    };
    let ghost np = probe_view(name_probe);
    let ghost vp = probe_view(version_probe);
    let r = resolve_with_probes(listing, config, name_probe, version_probe);
    proof {
        assert(r@ == spec_module(lv, *config, np, vp));
        assert((np is Some ==> spec_needs_name(lv, *config)) && (vp is Some
            ==> spec_needs_version(lv, *config)));
    }
    r
}

/// A failed compiler-name probe, when the template references
/// `compiler_name`, degrades the whole pass to a recorded failure: the
/// module is absent, and no partial segment sequence is ever emitted.
pub proof fn lemma_probe_failure_degrades(
    listing: Option<Seq<DirEntry>>,
    cfg: Config,
    m: Seq<char>,
    vp: Option<Result<Seq<char>, Seq<char>>>,
)
    requires
        spec_needs_name(listing, cfg),
    ensures
        spec_module(listing, cfg, Some(Err(m)), vp) is Failed,
{
    let ps = spec_parse(cfg.format@)->Ok_0;
    let np: Option<Result<Seq<char>, Seq<char>>> = Some(Err(m));
    let prov = spec_providers(cfg, ps, np, vp);
    assert("symbol"@ != "compiler_name"@) by {
        reveal_strlit("symbol");
        reveal_strlit("compiler_name");
        assert("symbol"@.len() == 6);
        assert("compiler_name"@.len() == 13);
    };
    assert("style"@ != "compiler_name"@) by {
        reveal_strlit("style");
        reveal_strlit("compiler_name");
        assert("style"@.len() == 5);
        assert("compiler_name"@.len() == 13);
    };
    let meta_rest = prov.meta.drop_first();
    assert(meta_rest.len() == 0);
    assert(crate::render::spec_lookup(meta_rest, "compiler_name"@) is None);
    assert(prov.meta[0].0 == "symbol"@);
    assert(crate::render::spec_lookup(prov.meta, "compiler_name"@) is None);
    let styles_rest = prov.styles.drop_first();
    assert(styles_rest.len() == 0);
    assert(crate::render::spec_lookup(styles_rest, "compiler_name"@) is None);
    assert(prov.styles[0].0 == "style"@);
    assert(crate::render::spec_lookup(prov.styles, "compiler_name"@) is None);
    assert(prov.values[0] == ("compiler_name"@, spec_name_binding(Err(m))));
    assert(crate::render::spec_lookup(prov.values, "compiler_name"@) matches Some(Err(_)));
    crate::render::lemma_render_err_if_err_var(ps, prov, "compiler_name"@);
}

/// Resolution is deterministic: one pass is a pure function of the
/// detection outcome, the configuration, and the probe outcomes, so two
/// passes over the same inputs yield identical segment sequences.
pub proof fn lemma_resolution_deterministic(
    listing: Option<Seq<DirEntry>>,
    cfg: Config,
    np: Option<Result<Seq<char>, Seq<char>>>,
    vp: Option<Result<Seq<char>, Seq<char>>>,
    r1: SpecOutcome,
    r2: SpecOutcome,
)
    requires
        r1 == spec_module(listing, cfg, np, vp),
        r2 == spec_module(listing, cfg, np, vp),
    ensures
        r1 == r2,
{
}

/// Probe outcomes cannot influence a pass whose template references
/// neither compiler variable: whatever a probe would have answered, the
/// outcome is the probe-free one.
pub proof fn lemma_unreferenced_probes_irrelevant(
    listing: Option<Seq<DirEntry>>,
    cfg: Config,
    np: Option<Result<Seq<char>, Seq<char>>>,
    vp: Option<Result<Seq<char>, Seq<char>>>,
)
    requires
        match spec_parse(cfg.format@) {
            Ok(ps) => !spec_references(ps, "compiler_name"@) && !spec_references(
                ps,
                "compiler_version"@,
            ),
            Err(_) => true,
        },
    ensures
        spec_module(listing, cfg, np, vp) == spec_module(listing, cfg, None, None),
{
    match spec_parse(cfg.format@) {
        Ok(ps) => {
            assert(spec_value_bindings(ps, cfg, np, vp) =~= spec_value_bindings(
                ps,
                cfg,
                None,
                None,
            ));
            assert(spec_providers(cfg, ps, np, vp) =~= spec_providers(cfg, ps, None, None));
        },
        Err(_) => {},
    }
}

/// A directory in which no entry matches any detection signal yields an
/// absent module, for every configuration and every probe outcome.
pub proof fn lemma_no_match_absent(
    listing: Option<Seq<DirEntry>>,
    cfg: Config,
    np: Option<Result<Seq<char>, Seq<char>>>,
    vp: Option<Result<Seq<char>, Seq<char>>>,
)
    requires
        match listing {
            None => true,
            Some(es) => !spec_matches(es, cfg.detection),
        },
    ensures
        spec_module(listing, cfg, np, vp) is NoMatch,
{
}

/// Once a project is detected the pass runs to one of its two terminal
/// answers — rendered segments or a recorded failure — never back to a
/// silent non-match.
pub proof fn lemma_match_always_answers(
    listing: Seq<DirEntry>,
    cfg: Config,
    np: Option<Result<Seq<char>, Seq<char>>>,
    vp: Option<Result<Seq<char>, Seq<char>>>,
)
    requires
        spec_matches(listing, cfg.detection),
    ensures
        !(spec_module(Some(listing), cfg, np, vp) is NoMatch),
{
}

/// A directory with zero entries matching any detection signal yields an
/// absent module, whatever the detection spec and the probe outcomes.
pub proof fn lemma_no_signal_absent(
    listing: Seq<DirEntry>,
    cfg: Config,
    np: Option<Result<Seq<char>, Seq<char>>>,
    vp: Option<Result<Seq<char>, Seq<char>>>,
)
    requires
        forall|i: int| 0 <= i < listing.len()
            ==> !crate::detect::entry_matches(#[trigger] listing[i], cfg.detection),
    ensures
        spec_module(Some(listing), cfg, np, vp) is NoMatch,
{
    crate::detect::lemma_no_signal_no_match(listing, cfg.detection);
}

/// An empty directory yields an absent module regardless of the template.
pub proof fn lemma_empty_dir_absent(
    listing: Seq<DirEntry>,
    cfg: Config,
    np: Option<Result<Seq<char>, Seq<char>>>,
    vp: Option<Result<Seq<char>, Seq<char>>>,
)
    requires
        listing.len() == 0,
    ensures
        spec_module(Some(listing), cfg, np, vp) is NoMatch,
{
    crate::detect::lemma_empty_listing_never_matches(listing, cfg.detection);
}

} // verus!
