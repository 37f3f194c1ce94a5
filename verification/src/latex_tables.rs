//! Symbol and character tables of the LaTeX converter.

use vstd::prelude::*;
use crate::text::str_eq;

verus! {

/// Part 1 of the command-name → symbol table.
pub open spec fn symbol_part0(name: Seq<char>) -> Option<Seq<char>> {
    if name == "alpha"@ {
        Some("\u{3b1}"@)
    } else if name == "beta"@ {
        Some("\u{3b2}"@)
    } else if name == "gamma"@ {
        Some("\u{3b3}"@)
    } else if name == "delta"@ {
        Some("\u{3b4}"@)
    } else if name == "epsilon"@ {
        Some("\u{3b5}"@)
    } else if name == "varepsilon"@ {
        Some("\u{3b5}"@)
    } else if name == "zeta"@ {
        Some("\u{3b6}"@)
    } else if name == "eta"@ {
        Some("\u{3b7}"@)
    } else if name == "theta"@ {
        Some("\u{3b8}"@)
    } else if name == "vartheta"@ {
        Some("\u{3d1}"@)
    } else if name == "iota"@ {
        Some("\u{3b9}"@)
    } else if name == "kappa"@ {
        Some("\u{3ba}"@)
    } else if name == "lambda"@ {
        Some("\u{3bb}"@)
    } else if name == "mu"@ {
        Some("\u{3bc}"@)
    } else if name == "nu"@ {
        Some("\u{3bd}"@)
    } else if name == "xi"@ {
        Some("\u{3be}"@)
    } else if name == "omicron"@ {
        Some("\u{3bf}"@)
    } else if name == "pi"@ {
        Some("\u{3c0}"@)
    } else if name == "varpi"@ {
        Some("\u{3d6}"@)
    } else if name == "rho"@ {
        Some("\u{3c1}"@)
    } else if name == "varrho"@ {
        Some("\u{3f1}"@)
    } else if name == "sigma"@ {
        Some("\u{3c3}"@)
    } else if name == "varsigma"@ {
        Some("\u{3c2}"@)
    } else if name == "tau"@ {
        Some("\u{3c4}"@)
    } else if name == "upsilon"@ {
        Some("\u{3c5}"@)
    } else if name == "phi"@ {
        Some("\u{3c6}"@)
    } else if name == "varphi"@ {
        Some("\u{3d5}"@)
    } else if name == "chi"@ {
        Some("\u{3c7}"@)
    } else if name == "psi"@ {
        Some("\u{3c8}"@)
    } else if name == "omega"@ {
        Some("\u{3c9}"@)
    } else if name == "Alpha"@ {
        Some("\u{391}"@)
    } else if name == "Beta"@ {
        Some("\u{392}"@)
    } else if name == "Gamma"@ {
        Some("\u{393}"@)
    } else if name == "Delta"@ {
        Some("\u{394}"@)
    } else if name == "Epsilon"@ {
        Some("\u{395}"@)
    } else if name == "Zeta"@ {
        Some("\u{396}"@)
    } else if name == "Eta"@ {
        Some("\u{397}"@)
    } else if name == "Theta"@ {
        Some("\u{398}"@)
    } else if name == "Iota"@ {
        Some("\u{399}"@)
    } else if name == "Kappa"@ {
        Some("\u{39a}"@)
    } else if name == "Lambda"@ {
        Some("\u{39b}"@)
    } else if name == "Mu"@ {
        Some("\u{39c}"@)
    } else if name == "Nu"@ {
        Some("\u{39d}"@)
    } else if name == "Xi"@ {
        Some("\u{39e}"@)
    } else if name == "Omicron"@ {
        Some("\u{39f}"@)
    } else {
        None
    }
}

fn lookup_part0(name: &str) -> (r: Option<&'static str>)
    ensures
        r is Some <==> symbol_part0(name@) is Some,
        r matches Some(x) ==> symbol_part0(name@) == Some(x@),
{
    if str_eq(name, "alpha") {
        Some("\u{3b1}")
    } else if str_eq(name, "beta") {
        Some("\u{3b2}")
    } else if str_eq(name, "gamma") {
        Some("\u{3b3}")
    } else if str_eq(name, "delta") {
        Some("\u{3b4}")
    } else if str_eq(name, "epsilon") {
        Some("\u{3b5}")
    } else if str_eq(name, "varepsilon") {
        Some("\u{3b5}")
    } else if str_eq(name, "zeta") {
        Some("\u{3b6}")
    } else if str_eq(name, "eta") {
        Some("\u{3b7}")
    } else if str_eq(name, "theta") {
        Some("\u{3b8}")
    } else if str_eq(name, "vartheta") {
        Some("\u{3d1}")
    } else if str_eq(name, "iota") {
        Some("\u{3b9}")
    } else if str_eq(name, "kappa") {
        Some("\u{3ba}")
    } else if str_eq(name, "lambda") {
        Some("\u{3bb}")
    } else if str_eq(name, "mu") {
        Some("\u{3bc}")
    } else if str_eq(name, "nu") {
        Some("\u{3bd}")
    } else if str_eq(name, "xi") {
        Some("\u{3be}")
    } else if str_eq(name, "omicron") {
        Some("\u{3bf}")
    } else if str_eq(name, "pi") {
        Some("\u{3c0}")
    } else if str_eq(name, "varpi") {
        Some("\u{3d6}")
    } else if str_eq(name, "rho") {
        Some("\u{3c1}")
    } else if str_eq(name, "varrho") {
        Some("\u{3f1}")
    } else if str_eq(name, "sigma") {
        Some("\u{3c3}")
    } else if str_eq(name, "varsigma") {
        Some("\u{3c2}")
    } else if str_eq(name, "tau") {
        Some("\u{3c4}")
    } else if str_eq(name, "upsilon") {
        Some("\u{3c5}")
    } else if str_eq(name, "phi") {
        Some("\u{3c6}")
    } else if str_eq(name, "varphi") {
        Some("\u{3d5}")
    } else if str_eq(name, "chi") {
        Some("\u{3c7}")
    } else if str_eq(name, "psi") {
        Some("\u{3c8}")
    } else if str_eq(name, "omega") {
        Some("\u{3c9}")
    } else if str_eq(name, "Alpha") {
        Some("\u{391}")
    } else if str_eq(name, "Beta") {
        Some("\u{392}")
    } else if str_eq(name, "Gamma") {
        Some("\u{393}")
    } else if str_eq(name, "Delta") {
        Some("\u{394}")
    } else if str_eq(name, "Epsilon") {
        Some("\u{395}")
    } else if str_eq(name, "Zeta") {
        Some("\u{396}")
    } else if str_eq(name, "Eta") {
        Some("\u{397}")
    } else if str_eq(name, "Theta") {
        Some("\u{398}")
    } else if str_eq(name, "Iota") {
        Some("\u{399}")
    } else if str_eq(name, "Kappa") {
        Some("\u{39a}")
    } else if str_eq(name, "Lambda") {
        Some("\u{39b}")
    } else if str_eq(name, "Mu") {
        Some("\u{39c}")
    } else if str_eq(name, "Nu") {
        Some("\u{39d}")
    } else if str_eq(name, "Xi") {
        Some("\u{39e}")
    } else if str_eq(name, "Omicron") {
        Some("\u{39f}")
    } else {
        None
    }
}

/// Part 2 of the command-name → symbol table.
pub open spec fn symbol_part1(name: Seq<char>) -> Option<Seq<char>> {
    if name == "Pi"@ {
        Some("\u{3a0}"@)
    } else if name == "Rho"@ {
        Some("\u{3a1}"@)
    } else if name == "Sigma"@ {
        Some("\u{3a3}"@)
    } else if name == "Tau"@ {
        Some("\u{3a4}"@)
    } else if name == "Upsilon"@ {
        Some("\u{3a5}"@)
    } else if name == "Phi"@ {
        Some("\u{3a6}"@)
    } else if name == "Chi"@ {
        Some("\u{3a7}"@)
    } else if name == "Psi"@ {
        Some("\u{3a8}"@)
    } else if name == "Omega"@ {
        Some("\u{3a9}"@)
    } else if name == "sum"@ {
        Some("\u{3a3}"@)
    } else if name == "prod"@ {
        Some("\u{220f}"@)
    } else if name == "coprod"@ {
        Some("\u{2210}"@)
    } else if name == "int"@ {
        Some("\u{222b}"@)
    } else if name == "oint"@ {
        Some("\u{222e}"@)
    } else if name == "iint"@ {
        Some("\u{222c}"@)
    } else if name == "iiint"@ {
        Some("\u{222d}"@)
    } else if name == "bigcap"@ {
        Some("\u{22c2}"@)
    } else if name == "bigcup"@ {
        Some("\u{22c3}"@)
    } else if name == "bigvee"@ {
        Some("\u{22c1}"@)
    } else if name == "bigwedge"@ {
        Some("\u{22c0}"@)
    } else if name == "bigoplus"@ {
        Some("\u{2a01}"@)
    } else if name == "bigotimes"@ {
        Some("\u{2a02}"@)
    } else if name == "bigodot"@ {
        Some("\u{2a00}"@)
    } else if name == "biguplus"@ {
        Some("\u{2a04}"@)
    } else if name == "times"@ {
        Some("\u{d7}"@)
    } else if name == "div"@ {
        Some("\u{f7}"@)
    } else if name == "cdot"@ {
        Some("\u{b7}"@)
    } else if name == "pm"@ {
        Some("\u{b1}"@)
    } else if name == "mp"@ {
        Some("\u{2213}"@)
    } else if name == "ast"@ {
        Some("\u{2217}"@)
    } else if name == "star"@ {
        Some("\u{22c6}"@)
    } else if name == "circ"@ {
        Some("\u{2218}"@)
    } else if name == "bullet"@ {
        Some("\u{2219}"@)
    } else if name == "cap"@ {
        Some("\u{2229}"@)
    } else if name == "cup"@ {
        Some("\u{222a}"@)
    } else if name == "vee"@ {
        Some("\u{2228}"@)
    } else if name == "wedge"@ {
        Some("\u{2227}"@)
    } else if name == "oplus"@ {
        Some("\u{2295}"@)
    } else if name == "ominus"@ {
        Some("\u{2296}"@)
    } else if name == "otimes"@ {
        Some("\u{2297}"@)
    } else if name == "odot"@ {
        Some("\u{2299}"@)
    } else if name == "oslash"@ {
        Some("\u{2298}"@)
    } else if name == "setminus"@ {
        Some("\u{2216}"@)
    } else if name == "wr"@ {
        Some("\u{2240}"@)
    } else if name == "dagger"@ {
        Some("\u{2020}"@)
    } else {
        None
    }
}

fn lookup_part1(name: &str) -> (r: Option<&'static str>)
    ensures
        r is Some <==> symbol_part1(name@) is Some,
        r matches Some(x) ==> symbol_part1(name@) == Some(x@),
{
    if str_eq(name, "Pi") {
        Some("\u{3a0}")
    } else if str_eq(name, "Rho") {
        Some("\u{3a1}")
    } else if str_eq(name, "Sigma") {
        Some("\u{3a3}")
    } else if str_eq(name, "Tau") {
        Some("\u{3a4}")
    } else if str_eq(name, "Upsilon") {
        Some("\u{3a5}")
    } else if str_eq(name, "Phi") {
        Some("\u{3a6}")
    } else if str_eq(name, "Chi") {
        Some("\u{3a7}")
    } else if str_eq(name, "Psi") {
        Some("\u{3a8}")
    } else if str_eq(name, "Omega") {
        Some("\u{3a9}")
    } else if str_eq(name, "sum") {
        Some("\u{3a3}")
    } else if str_eq(name, "prod") {
        Some("\u{220f}")
    } else if str_eq(name, "coprod") {
        Some("\u{2210}")
    } else if str_eq(name, "int") {
        Some("\u{222b}")
    } else if str_eq(name, "oint") {
        Some("\u{222e}")
    } else if str_eq(name, "iint") {
        Some("\u{222c}")
    } else if str_eq(name, "iiint") {
        Some("\u{222d}")
    } else if str_eq(name, "bigcap") {
        Some("\u{22c2}")
    } else if str_eq(name, "bigcup") {
        Some("\u{22c3}")
    } else if str_eq(name, "bigvee") {
        Some("\u{22c1}")
    } else if str_eq(name, "bigwedge") {
        Some("\u{22c0}")
    } else if str_eq(name, "bigoplus") {
        Some("\u{2a01}")
    } else if str_eq(name, "bigotimes") {
        Some("\u{2a02}")
    } else if str_eq(name, "bigodot") {
        Some("\u{2a00}")
    } else if str_eq(name, "biguplus") {
        Some("\u{2a04}")
    } else if str_eq(name, "times") {
        Some("\u{d7}")
    } else if str_eq(name, "div") {
        Some("\u{f7}")
    } else if str_eq(name, "cdot") {
        Some("\u{b7}")
    } else if str_eq(name, "pm") {
        Some("\u{b1}")
    } else if str_eq(name, "mp") {
        Some("\u{2213}")
    } else if str_eq(name, "ast") {
        Some("\u{2217}")
    } else if str_eq(name, "star") {
        Some("\u{22c6}")
    } else if str_eq(name, "circ") {
        Some("\u{2218}")
    } else if str_eq(name, "bullet") {
        Some("\u{2219}")
    } else if str_eq(name, "cap") {
        Some("\u{2229}")
    } else if str_eq(name, "cup") {
        Some("\u{222a}")
    } else if str_eq(name, "vee") {
        Some("\u{2228}")
    } else if str_eq(name, "wedge") {
        Some("\u{2227}")
    } else if str_eq(name, "oplus") {
        Some("\u{2295}")
    } else if str_eq(name, "ominus") {
        Some("\u{2296}")
    } else if str_eq(name, "otimes") {
        Some("\u{2297}")
    } else if str_eq(name, "odot") {
        Some("\u{2299}")
    } else if str_eq(name, "oslash") {
        Some("\u{2298}")
    } else if str_eq(name, "setminus") {
        Some("\u{2216}")
    } else if str_eq(name, "wr") {
        Some("\u{2240}")
    } else if str_eq(name, "dagger") {
        Some("\u{2020}")
    } else {
        None
    }
}

/// Part 3 of the command-name → symbol table.
pub open spec fn symbol_part2(name: Seq<char>) -> Option<Seq<char>> {
    if name == "ddagger"@ {
        Some("\u{2021}"@)
    } else if name == "leq"@ {
        Some("\u{2264}"@)
    } else if name == "le"@ {
        Some("\u{2264}"@)
    } else if name == "geq"@ {
        Some("\u{2265}"@)
    } else if name == "ge"@ {
        Some("\u{2265}"@)
    } else if name == "neq"@ {
        Some("\u{2260}"@)
    } else if name == "ne"@ {
        Some("\u{2260}"@)
    } else if name == "approx"@ {
        Some("\u{2248}"@)
    } else if name == "equiv"@ {
        Some("\u{2261}"@)
    } else if name == "sim"@ {
        Some("\u{223c}"@)
    } else if name == "simeq"@ {
        Some("\u{2243}"@)
    } else if name == "cong"@ {
        Some("\u{2245}"@)
    } else if name == "propto"@ {
        Some("\u{221d}"@)
    } else if name == "prec"@ {
        Some("\u{227a}"@)
    } else if name == "succ"@ {
        Some("\u{227b}"@)
    } else if name == "preceq"@ {
        Some("\u{2aaf}"@)
    } else if name == "succeq"@ {
        Some("\u{2ab0}"@)
    } else if name == "subset"@ {
        Some("\u{2282}"@)
    } else if name == "supset"@ {
        Some("\u{2283}"@)
    } else if name == "subseteq"@ {
        Some("\u{2286}"@)
    } else if name == "supseteq"@ {
        Some("\u{2287}"@)
    } else if name == "sqsubset"@ {
        Some("\u{228f}"@)
    } else if name == "sqsupset"@ {
        Some("\u{2290}"@)
    } else if name == "sqsubseteq"@ {
        Some("\u{2291}"@)
    } else if name == "sqsupseteq"@ {
        Some("\u{2292}"@)
    } else if name == "in"@ {
        Some("\u{2208}"@)
    } else if name == "notin"@ {
        Some("\u{2209}"@)
    } else if name == "ni"@ {
        Some("\u{220b}"@)
    } else if name == "vdash"@ {
        Some("\u{22a2}"@)
    } else if name == "dashv"@ {
        Some("\u{22a3}"@)
    } else if name == "models"@ {
        Some("\u{22a7}"@)
    } else if name == "perp"@ {
        Some("\u{22a5}"@)
    } else if name == "parallel"@ {
        Some("\u{2225}"@)
    } else if name == "mid"@ {
        Some("\u{2223}"@)
    } else if name == "nmid"@ {
        Some("\u{2224}"@)
    } else if name == "ll"@ {
        Some("\u{226a}"@)
    } else if name == "gg"@ {
        Some("\u{226b}"@)
    } else if name == "rightarrow"@ {
        Some("\u{2192}"@)
    } else if name == "to"@ {
        Some("\u{2192}"@)
    } else if name == "leftarrow"@ {
        Some("\u{2190}"@)
    } else if name == "gets"@ {
        Some("\u{2190}"@)
    } else if name == "Rightarrow"@ {
        Some("\u{21d2}"@)
    } else if name == "Leftarrow"@ {
        Some("\u{21d0}"@)
    } else if name == "Leftrightarrow"@ {
        Some("\u{21d4}"@)
    } else if name == "iff"@ {
        Some("\u{21d4}"@)
    } else {
        None
    }
}

fn lookup_part2(name: &str) -> (r: Option<&'static str>)
    ensures
        r is Some <==> symbol_part2(name@) is Some,
        r matches Some(x) ==> symbol_part2(name@) == Some(x@),
{
    if str_eq(name, "ddagger") {
        Some("\u{2021}")
    } else if str_eq(name, "leq") {
        Some("\u{2264}")
    } else if str_eq(name, "le") {
        Some("\u{2264}")
    } else if str_eq(name, "geq") {
        Some("\u{2265}")
    } else if str_eq(name, "ge") {
        Some("\u{2265}")
    } else if str_eq(name, "neq") {
        Some("\u{2260}")
    } else if str_eq(name, "ne") {
        Some("\u{2260}")
    } else if str_eq(name, "approx") {
        Some("\u{2248}")
    } else if str_eq(name, "equiv") {
        Some("\u{2261}")
    } else if str_eq(name, "sim") {
        Some("\u{223c}")
    } else if str_eq(name, "simeq") {
        Some("\u{2243}")
    } else if str_eq(name, "cong") {
        Some("\u{2245}")
    } else if str_eq(name, "propto") {
        Some("\u{221d}")
    } else if str_eq(name, "prec") {
        Some("\u{227a}")
    } else if str_eq(name, "succ") {
        Some("\u{227b}")
    } else if str_eq(name, "preceq") {
        Some("\u{2aaf}")
    } else if str_eq(name, "succeq") {
        Some("\u{2ab0}")
    } else if str_eq(name, "subset") {
        Some("\u{2282}")
    } else if str_eq(name, "supset") {
        Some("\u{2283}")
    } else if str_eq(name, "subseteq") {
        Some("\u{2286}")
    } else if str_eq(name, "supseteq") {
        Some("\u{2287}")
    } else if str_eq(name, "sqsubset") {
        Some("\u{228f}")
    } else if str_eq(name, "sqsupset") {
        Some("\u{2290}")
    } else if str_eq(name, "sqsubseteq") {
        Some("\u{2291}")
    } else if str_eq(name, "sqsupseteq") {
        Some("\u{2292}")
    } else if str_eq(name, "in") {
        Some("\u{2208}")
    } else if str_eq(name, "notin") {
        Some("\u{2209}")
    } else if str_eq(name, "ni") {
        Some("\u{220b}")
    } else if str_eq(name, "vdash") {
        Some("\u{22a2}")
    } else if str_eq(name, "dashv") {
        Some("\u{22a3}")
    } else if str_eq(name, "models") {
        Some("\u{22a7}")
    } else if str_eq(name, "perp") {
        Some("\u{22a5}")
    } else if str_eq(name, "parallel") {
        Some("\u{2225}")
    } else if str_eq(name, "mid") {
        Some("\u{2223}")
    } else if str_eq(name, "nmid") {
        Some("\u{2224}")
    } else if str_eq(name, "ll") {
        Some("\u{226a}")
    } else if str_eq(name, "gg") {
        Some("\u{226b}")
    } else if str_eq(name, "rightarrow") {
        Some("\u{2192}")
    } else if str_eq(name, "to") {
        Some("\u{2192}")
    } else if str_eq(name, "leftarrow") {
        Some("\u{2190}")
    } else if str_eq(name, "gets") {
        Some("\u{2190}")
    } else if str_eq(name, "Rightarrow") {
        Some("\u{21d2}")
    } else if str_eq(name, "Leftarrow") {
        Some("\u{21d0}")
    } else if str_eq(name, "Leftrightarrow") {
        Some("\u{21d4}")
    } else if str_eq(name, "iff") {
        Some("\u{21d4}")
    } else {
        None
    }
}

/// Part 4 of the command-name → symbol table.
pub open spec fn symbol_part3(name: Seq<char>) -> Option<Seq<char>> {
    if name == "leftrightarrow"@ {
        Some("\u{2194}"@)
    } else if name == "mapsto"@ {
        Some("\u{21a6}"@)
    } else if name == "hookrightarrow"@ {
        Some("\u{21aa}"@)
    } else if name == "hookleftarrow"@ {
        Some("\u{21a9}"@)
    } else if name == "uparrow"@ {
        Some("\u{2191}"@)
    } else if name == "downarrow"@ {
        Some("\u{2193}"@)
    } else if name == "Uparrow"@ {
        Some("\u{21d1}"@)
    } else if name == "Downarrow"@ {
        Some("\u{21d3}"@)
    } else if name == "updownarrow"@ {
        Some("\u{2195}"@)
    } else if name == "Updownarrow"@ {
        Some("\u{21d5}"@)
    } else if name == "nearrow"@ {
        Some("\u{2197}"@)
    } else if name == "searrow"@ {
        Some("\u{2198}"@)
    } else if name == "nwarrow"@ {
        Some("\u{2196}"@)
    } else if name == "swarrow"@ {
        Some("\u{2199}"@)
    } else if name == "rightharpoonup"@ {
        Some("\u{21c0}"@)
    } else if name == "rightharpoondown"@ {
        Some("\u{21c1}"@)
    } else if name == "leftharpoonup"@ {
        Some("\u{21bc}"@)
    } else if name == "leftharpoondown"@ {
        Some("\u{21bd}"@)
    } else if name == "rightleftharpoons"@ {
        Some("\u{21cc}"@)
    } else if name == "overleftrightarrow"@ {
        Some("\u{2194}"@)
    } else if name == "infty"@ {
        Some("\u{221e}"@)
    } else if name == "partial"@ {
        Some("\u{2202}"@)
    } else if name == "nabla"@ {
        Some("\u{2207}"@)
    } else if name == "forall"@ {
        Some("\u{2200}"@)
    } else if name == "exists"@ {
        Some("\u{2203}"@)
    } else if name == "nexists"@ {
        Some("\u{2204}"@)
    } else if name == "neg"@ {
        Some("\u{ac}"@)
    } else if name == "lnot"@ {
        Some("\u{ac}"@)
    } else if name == "emptyset"@ {
        Some("\u{2205}"@)
    } else if name == "varnothing"@ {
        Some("\u{2205}"@)
    } else if name == "aleph"@ {
        Some("\u{2135}"@)
    } else if name == "beth"@ {
        Some("\u{2136}"@)
    } else if name == "ell"@ {
        Some("\u{2113}"@)
    } else if name == "hbar"@ {
        Some("\u{210f}"@)
    } else if name == "imath"@ {
        Some("\u{131}"@)
    } else if name == "jmath"@ {
        Some("\u{237}"@)
    } else if name == "Re"@ {
        Some("\u{211c}"@)
    } else if name == "Im"@ {
        Some("\u{2111}"@)
    } else if name == "wp"@ {
        Some("\u{2118}"@)
    } else if name == "complement"@ {
        Some("\u{2201}"@)
    } else if name == "angle"@ {
        Some("\u{2220}"@)
    } else if name == "measuredangle"@ {
        Some("\u{2221}"@)
    } else if name == "prime"@ {
        Some("\u{2032}"@)
    } else if name == "flat"@ {
        Some("\u{266d}"@)
    } else if name == "natural"@ {
        Some("\u{266e}"@)
    } else {
        None
    }
}

fn lookup_part3(name: &str) -> (r: Option<&'static str>)
    ensures
        r is Some <==> symbol_part3(name@) is Some,
        r matches Some(x) ==> symbol_part3(name@) == Some(x@),
{
    if str_eq(name, "leftrightarrow") {
        Some("\u{2194}")
    } else if str_eq(name, "mapsto") {
        Some("\u{21a6}")
    } else if str_eq(name, "hookrightarrow") {
        Some("\u{21aa}")
    } else if str_eq(name, "hookleftarrow") {
        Some("\u{21a9}")
    } else if str_eq(name, "uparrow") {
        Some("\u{2191}")
    } else if str_eq(name, "downarrow") {
        Some("\u{2193}")
    } else if str_eq(name, "Uparrow") {
        Some("\u{21d1}")
    } else if str_eq(name, "Downarrow") {
        Some("\u{21d3}")
    } else if str_eq(name, "updownarrow") {
        Some("\u{2195}")
    } else if str_eq(name, "Updownarrow") {
        Some("\u{21d5}")
    } else if str_eq(name, "nearrow") {
        Some("\u{2197}")
    } else if str_eq(name, "searrow") {
        Some("\u{2198}")
    } else if str_eq(name, "nwarrow") {
        Some("\u{2196}")
    } else if str_eq(name, "swarrow") {
        Some("\u{2199}")
    } else if str_eq(name, "rightharpoonup") {
        Some("\u{21c0}")
    } else if str_eq(name, "rightharpoondown") {
        Some("\u{21c1}")
    } else if str_eq(name, "leftharpoonup") {
        Some("\u{21bc}")
    } else if str_eq(name, "leftharpoondown") {
        Some("\u{21bd}")
    } else if str_eq(name, "rightleftharpoons") {
        Some("\u{21cc}")
    } else if str_eq(name, "overleftrightarrow") {
        Some("\u{2194}")
    } else if str_eq(name, "infty") {
        Some("\u{221e}")
    } else if str_eq(name, "partial") {
        Some("\u{2202}")
    } else if str_eq(name, "nabla") {
        Some("\u{2207}")
    } else if str_eq(name, "forall") {
        Some("\u{2200}")
    } else if str_eq(name, "exists") {
        Some("\u{2203}")
    } else if str_eq(name, "nexists") {
        Some("\u{2204}")
    } else if str_eq(name, "neg") {
        Some("\u{ac}")
    } else if str_eq(name, "lnot") {
        Some("\u{ac}")
    } else if str_eq(name, "emptyset") {
        Some("\u{2205}")
    } else if str_eq(name, "varnothing") {
        Some("\u{2205}")
    } else if str_eq(name, "aleph") {
        Some("\u{2135}")
    } else if str_eq(name, "beth") {
        Some("\u{2136}")
    } else if str_eq(name, "ell") {
        Some("\u{2113}")
    } else if str_eq(name, "hbar") {
        Some("\u{210f}")
    } else if str_eq(name, "imath") {
        Some("\u{131}")
    } else if str_eq(name, "jmath") {
        Some("\u{237}")
    } else if str_eq(name, "Re") {
        Some("\u{211c}")
    } else if str_eq(name, "Im") {
        Some("\u{2111}")
    } else if str_eq(name, "wp") {
        Some("\u{2118}")
    } else if str_eq(name, "complement") {
        Some("\u{2201}")
    } else if str_eq(name, "angle") {
        Some("\u{2220}")
    } else if str_eq(name, "measuredangle") {
        Some("\u{2221}")
    } else if str_eq(name, "prime") {
        Some("\u{2032}")
    } else if str_eq(name, "flat") {
        Some("\u{266d}")
    } else if str_eq(name, "natural") {
        Some("\u{266e}")
    } else {
        None
    }
}

/// Part 5 of the command-name → symbol table.
pub open spec fn symbol_part4(name: Seq<char>) -> Option<Seq<char>> {
    if name == "sharp"@ {
        Some("\u{266f}"@)
    } else if name == "square"@ {
        Some("\u{25a1}"@)
    } else if name == "blacksquare"@ {
        Some("\u{25a0}"@)
    } else if name == "triangle"@ {
        Some("\u{25b3}"@)
    } else if name == "blacktriangle"@ {
        Some("\u{25b2}"@)
    } else if name == "diamond"@ {
        Some("\u{25c7}"@)
    } else if name == "lozenge"@ {
        Some("\u{25ca}"@)
    } else if name == "bigcirc"@ {
        Some("\u{25ef}"@)
    } else if name == "cdots"@ {
        Some("\u{22ef}"@)
    } else if name == "vdots"@ {
        Some("\u{22ee}"@)
    } else if name == "ddots"@ {
        Some("\u{22f1}"@)
    } else if name == "ldots"@ {
        Some("\u{2026}"@)
    } else if name == "dots"@ {
        Some("\u{2026}"@)
    } else if name == "colon"@ {
        Some(":"@)
    } else if name == "{"@ {
        Some("{"@)
    } else if name == "}"@ {
        Some("}"@)
    } else if name == "%"@ {
        Some("%"@)
    } else if name == "#"@ {
        Some("#"@)
    } else if name == "&"@ {
        Some("&"@)
    } else if name == "_"@ {
        Some("_"@)
    } else if name == "$"@ {
        Some("$"@)
    } else if name == "textbackslash"@ {
        Some("\\"@)
    } else if name == "degree"@ {
        Some("\u{b0}"@)
    } else if name == "pounds"@ {
        Some("\u{a3}"@)
    } else if name == "euros"@ {
        Some("\u{20ac}"@)
    } else if name == "yen"@ {
        Some("\u{a5}"@)
    } else if name == "checkmark"@ {
        Some("\u{2713}"@)
    } else if name == "heartsuit"@ {
        Some("\u{2665}"@)
    } else if name == "spadesuit"@ {
        Some("\u{2660}"@)
    } else if name == "diamondsuit"@ {
        Some("\u{2666}"@)
    } else if name == "clubsuit"@ {
        Some("\u{2663}"@)
    } else {
        None
    }
}

fn lookup_part4(name: &str) -> (r: Option<&'static str>)
    ensures
        r is Some <==> symbol_part4(name@) is Some,
        r matches Some(x) ==> symbol_part4(name@) == Some(x@),
{
    if str_eq(name, "sharp") {
        Some("\u{266f}")
    } else if str_eq(name, "square") {
        Some("\u{25a1}")
    } else if str_eq(name, "blacksquare") {
        Some("\u{25a0}")
    } else if str_eq(name, "triangle") {
        Some("\u{25b3}")
    } else if str_eq(name, "blacktriangle") {
        Some("\u{25b2}")
    } else if str_eq(name, "diamond") {
        Some("\u{25c7}")
    } else if str_eq(name, "lozenge") {
        Some("\u{25ca}")
    } else if str_eq(name, "bigcirc") {
        Some("\u{25ef}")
    } else if str_eq(name, "cdots") {
        Some("\u{22ef}")
    } else if str_eq(name, "vdots") {
        Some("\u{22ee}")
    } else if str_eq(name, "ddots") {
        Some("\u{22f1}")
    } else if str_eq(name, "ldots") {
        Some("\u{2026}")
    } else if str_eq(name, "dots") {
        Some("\u{2026}")
    } else if str_eq(name, "colon") {
        Some(":")
    } else if str_eq(name, "{") {
        Some("{")
    } else if str_eq(name, "}") {
        Some("}")
    } else if str_eq(name, "%") {
        Some("%")
    } else if str_eq(name, "#") {
        Some("#")
    } else if str_eq(name, "&") {
        Some("&")
    } else if str_eq(name, "_") {
        Some("_")
    } else if str_eq(name, "$") {
        Some("$")
    } else if str_eq(name, "textbackslash") {
        Some("\\")
    } else if str_eq(name, "degree") {
        Some("\u{b0}")
    } else if str_eq(name, "pounds") {
        Some("\u{a3}")
    } else if str_eq(name, "euros") {
        Some("\u{20ac}")
    } else if str_eq(name, "yen") {
        Some("\u{a5}")
    } else if str_eq(name, "checkmark") {
        Some("\u{2713}")
    } else if str_eq(name, "heartsuit") {
        Some("\u{2665}")
    } else if str_eq(name, "spadesuit") {
        Some("\u{2660}")
    } else if str_eq(name, "diamondsuit") {
        Some("\u{2666}")
    } else if str_eq(name, "clubsuit") {
        Some("\u{2663}")
    } else {
        None
    }
}

/// The symbol a LaTeX command name stands for, if it is a known symbol.
pub open spec fn symbol_of(name: Seq<char>) -> Option<Seq<char>> {
    if symbol_part0(name) is Some {
        symbol_part0(name)
    } else 
    if symbol_part1(name) is Some {
        symbol_part1(name)
    } else 
    if symbol_part2(name) is Some {
        symbol_part2(name)
    } else 
    if symbol_part3(name) is Some {
        symbol_part3(name)
    } else 
    {
        symbol_part4(name)
    }
}

/// Looks a command name up in the symbol table.
pub fn lookup_symbol(name: &str) -> (r: Option<&'static str>)
    ensures
        r is Some <==> symbol_of(name@) is Some,
        r matches Some(x) ==> symbol_of(name@) == Some(x@),
{
    let r0 = lookup_part0(name);
    if r0.is_some() {
        return r0;
    }
    let r1 = lookup_part1(name);
    if r1.is_some() {
        return r1;
    }
    let r2 = lookup_part2(name);
    if r2.is_some() {
        return r2;
    }
    let r3 = lookup_part3(name);
    if r3.is_some() {
        return r3;
    }
    let r4 = lookup_part4(name);
    if r4.is_some() {
        return r4;
    }
    None
}

/// The superscript form of a character, if Unicode has one.
pub open spec fn super_of(c: char) -> Option<char> {
    match c {
        '0' => Some('\u{2070}'),
        '1' => Some('\u{b9}'),
        '2' => Some('\u{b2}'),
        '3' => Some('\u{b3}'),
        '4' => Some('\u{2074}'),
        '5' => Some('\u{2075}'),
        '6' => Some('\u{2076}'),
        '7' => Some('\u{2077}'),
        '8' => Some('\u{2078}'),
        '9' => Some('\u{2079}'),
        '+' => Some('\u{207a}'),
        '-' => Some('\u{207b}'),
        '=' => Some('\u{207c}'),
        '(' => Some('\u{207d}'),
        ')' => Some('\u{207e}'),
        'a' => Some('\u{1d43}'),
        'b' => Some('\u{1d47}'),
        'c' => Some('\u{1d9c}'),
        'd' => Some('\u{1d48}'),
        'e' => Some('\u{1d49}'),
        'f' => Some('\u{1da0}'),
        'g' => Some('\u{1d4d}'),
        'h' => Some('\u{2b0}'),
        'i' => Some('\u{2071}'),
        'j' => Some('\u{2b2}'),
        'k' => Some('\u{1d4f}'),
        'l' => Some('\u{2e1}'),
        'm' => Some('\u{1d50}'),
        'n' => Some('\u{207f}'),
        'o' => Some('\u{1d52}'),
        'p' => Some('\u{1d56}'),
        'r' => Some('\u{2b3}'),
        's' => Some('\u{2e2}'),
        't' => Some('\u{1d57}'),
        'u' => Some('\u{1d58}'),
        'v' => Some('\u{1d5b}'),
        'w' => Some('\u{2b7}'),
        'x' => Some('\u{2e3}'),
        'y' => Some('\u{2b8}'),
        'z' => Some('\u{1dbb}'),
        'A' => Some('\u{1d2c}'),
        'B' => Some('\u{1d2e}'),
        'D' => Some('\u{1d30}'),
        'E' => Some('\u{1d31}'),
        'G' => Some('\u{1d33}'),
        'H' => Some('\u{1d34}'),
        'I' => Some('\u{1d35}'),
        'J' => Some('\u{1d36}'),
        'K' => Some('\u{1d37}'),
        'L' => Some('\u{1d38}'),
        'M' => Some('\u{1d39}'),
        'N' => Some('\u{1d3a}'),
        'O' => Some('\u{1d3c}'),
        'P' => Some('\u{1d3e}'),
        'R' => Some('\u{1d3f}'),
        'T' => Some('\u{1d40}'),
        'U' => Some('\u{1d41}'),
        'V' => Some('\u{2c7d}'),
        'W' => Some('\u{1d42}'),
        ',' => Some('\u{fe10}'),
        '.' => Some('\u{2d9}'),
        _ => None,
    }
}

pub fn super_char(c: char) -> (r: Option<char>)
    ensures
        r == super_of(c),
{
    match c {
        '0' => Some('\u{2070}'),
        '1' => Some('\u{b9}'),
        '2' => Some('\u{b2}'),
        '3' => Some('\u{b3}'),
        '4' => Some('\u{2074}'),
        '5' => Some('\u{2075}'),
        '6' => Some('\u{2076}'),
        '7' => Some('\u{2077}'),
        '8' => Some('\u{2078}'),
        '9' => Some('\u{2079}'),
        '+' => Some('\u{207a}'),
        '-' => Some('\u{207b}'),
        '=' => Some('\u{207c}'),
        '(' => Some('\u{207d}'),
        ')' => Some('\u{207e}'),
        'a' => Some('\u{1d43}'),
        'b' => Some('\u{1d47}'),
        'c' => Some('\u{1d9c}'),
        'd' => Some('\u{1d48}'),
        'e' => Some('\u{1d49}'),
        'f' => Some('\u{1da0}'),
        'g' => Some('\u{1d4d}'),
        'h' => Some('\u{2b0}'),
        'i' => Some('\u{2071}'),
        'j' => Some('\u{2b2}'),
        'k' => Some('\u{1d4f}'),
        'l' => Some('\u{2e1}'),
        'm' => Some('\u{1d50}'),
        'n' => Some('\u{207f}'),
        'o' => Some('\u{1d52}'),
        'p' => Some('\u{1d56}'),
        'r' => Some('\u{2b3}'),
        's' => Some('\u{2e2}'),
        't' => Some('\u{1d57}'),
        'u' => Some('\u{1d58}'),
        'v' => Some('\u{1d5b}'),
        'w' => Some('\u{2b7}'),
        'x' => Some('\u{2e3}'),
        'y' => Some('\u{2b8}'),
        'z' => Some('\u{1dbb}'),
        'A' => Some('\u{1d2c}'),
        'B' => Some('\u{1d2e}'),
        'D' => Some('\u{1d30}'),
        'E' => Some('\u{1d31}'),
        'G' => Some('\u{1d33}'),
        'H' => Some('\u{1d34}'),
        'I' => Some('\u{1d35}'),
        'J' => Some('\u{1d36}'),
        'K' => Some('\u{1d37}'),
        'L' => Some('\u{1d38}'),
        'M' => Some('\u{1d39}'),
        'N' => Some('\u{1d3a}'),
        'O' => Some('\u{1d3c}'),
        'P' => Some('\u{1d3e}'),
        'R' => Some('\u{1d3f}'),
        'T' => Some('\u{1d40}'),
        'U' => Some('\u{1d41}'),
        'V' => Some('\u{2c7d}'),
        'W' => Some('\u{1d42}'),
        ',' => Some('\u{fe10}'),
        '.' => Some('\u{2d9}'),
        _ => None,
    }
}

/// The subscript form of a character, if Unicode has one.
pub open spec fn sub_of(c: char) -> Option<char> {
    match c {
        '0' => Some('\u{2080}'),
        '1' => Some('\u{2081}'),
        '2' => Some('\u{2082}'),
        '3' => Some('\u{2083}'),
        '4' => Some('\u{2084}'),
        '5' => Some('\u{2085}'),
        '6' => Some('\u{2086}'),
        '7' => Some('\u{2087}'),
        '8' => Some('\u{2088}'),
        '9' => Some('\u{2089}'),
        '+' => Some('\u{208a}'),
        '-' => Some('\u{208b}'),
        '=' => Some('\u{208c}'),
        '(' => Some('\u{208d}'),
        ')' => Some('\u{208e}'),
        'a' => Some('\u{2090}'),
        'e' => Some('\u{2091}'),
        'h' => Some('\u{2095}'),
        'i' => Some('\u{1d62}'),
        'j' => Some('\u{2c7c}'),
        'k' => Some('\u{2096}'),
        'l' => Some('\u{2097}'),
        'm' => Some('\u{2098}'),
        'n' => Some('\u{2099}'),
        'o' => Some('\u{2092}'),
        'p' => Some('\u{209a}'),
        'r' => Some('\u{1d63}'),
        's' => Some('\u{209b}'),
        't' => Some('\u{209c}'),
        'u' => Some('\u{1d64}'),
        'v' => Some('\u{1d65}'),
        'x' => Some('\u{2093}'),
        _ => None,
    }
}

pub fn sub_char(c: char) -> (r: Option<char>)
    ensures
        r == sub_of(c),
{
    match c {
        '0' => Some('\u{2080}'),
        '1' => Some('\u{2081}'),
        '2' => Some('\u{2082}'),
        '3' => Some('\u{2083}'),
        '4' => Some('\u{2084}'),
        '5' => Some('\u{2085}'),
        '6' => Some('\u{2086}'),
        '7' => Some('\u{2087}'),
        '8' => Some('\u{2088}'),
        '9' => Some('\u{2089}'),
        '+' => Some('\u{208a}'),
        '-' => Some('\u{208b}'),
        '=' => Some('\u{208c}'),
        '(' => Some('\u{208d}'),
        ')' => Some('\u{208e}'),
        'a' => Some('\u{2090}'),
        'e' => Some('\u{2091}'),
        'h' => Some('\u{2095}'),
        'i' => Some('\u{1d62}'),
        'j' => Some('\u{2c7c}'),
        'k' => Some('\u{2096}'),
        'l' => Some('\u{2097}'),
        'm' => Some('\u{2098}'),
        'n' => Some('\u{2099}'),
        'o' => Some('\u{2092}'),
        'p' => Some('\u{209a}'),
        'r' => Some('\u{1d63}'),
        's' => Some('\u{209b}'),
        't' => Some('\u{209c}'),
        'u' => Some('\u{1d64}'),
        'v' => Some('\u{1d65}'),
        'x' => Some('\u{2093}'),
        _ => None,
    }
}

/// The double-struck (blackboard bold) form of a capital letter; other characters are kept.
pub open spec fn mathbb_of(c: char) -> char {
    match c {
        'A' => '\u{1d538}',
        'B' => '\u{1d539}',
        'C' => '\u{2102}',
        'D' => '\u{1d53b}',
        'E' => '\u{1d53c}',
        'F' => '\u{1d53d}',
        'G' => '\u{1d53e}',
        'H' => '\u{210d}',
        'I' => '\u{1d540}',
        'J' => '\u{1d541}',
        'K' => '\u{1d542}',
        'L' => '\u{1d543}',
        'M' => '\u{1d544}',
        'N' => '\u{2115}',
        'O' => '\u{1d546}',
        'P' => '\u{2119}',
        'Q' => '\u{211a}',
        'R' => '\u{211d}',
        'S' => '\u{1d54a}',
        'T' => '\u{1d54b}',
        'U' => '\u{1d54c}',
        'V' => '\u{1d54d}',
        'W' => '\u{1d54e}',
        'X' => '\u{1d54f}',
        'Y' => '\u{1d550}',
        'Z' => '\u{2124}',
        _ => c,
    }
}

pub fn mathbb_char(c: char) -> (r: char)
    ensures
        r == mathbb_of(c),
{
    match c {
        'A' => '\u{1d538}',
        'B' => '\u{1d539}',
        'C' => '\u{2102}',
        'D' => '\u{1d53b}',
        'E' => '\u{1d53c}',
        'F' => '\u{1d53d}',
        'G' => '\u{1d53e}',
        'H' => '\u{210d}',
        'I' => '\u{1d540}',
        'J' => '\u{1d541}',
        'K' => '\u{1d542}',
        'L' => '\u{1d543}',
        'M' => '\u{1d544}',
        'N' => '\u{2115}',
        'O' => '\u{1d546}',
        'P' => '\u{2119}',
        'Q' => '\u{211a}',
        'R' => '\u{211d}',
        'S' => '\u{1d54a}',
        'T' => '\u{1d54b}',
        'U' => '\u{1d54c}',
        'V' => '\u{1d54d}',
        'W' => '\u{1d54e}',
        'X' => '\u{1d54f}',
        'Y' => '\u{1d550}',
        'Z' => '\u{2124}',
        _ => c,
    }
}

} // verus!
