//! The agent that looks up the latest quote of a share.
//!
//! Names of common companies are known by heart; anything else is taken for a
//! ticker. A ticker without an exchange is taken for one of the United States.
//! The service answers without data for a symbol that it does not know, and then
//! the same ticker is tried on other exchanges; the first that has data wins.

use vstd::prelude::*;

use crate::agents;
use crate::agents::clock;
use crate::agents::clock::Moment;
use crate::agents::upstream;
use crate::agents::upstream::Outcome;
use crate::agents::{AgentError, AgentInfo, AgentView, ErrorView};
use crate::json;
use crate::json::{Json, JsonView, NumView};
use crate::text;

verus! {

/// How many bytes of an answer are read.
pub const MAX_UPSTREAM_BYTES: usize = 16384;

/// How long a request may take, in seconds.
pub const HTTP_TIMEOUT_SECS: u64 = 8;

/// The most bytes of a ticker.
pub const MAX_TICKER_BYTES: usize = 40;

// ---- Companies ----------------------------------------------------------

/// The text with single spaces between its words and none around them.
pub open spec fn single_spaced(s: Seq<char>) -> Seq<char> {
    text::join(text::words(s), " "@)
}

/// The text with single spaces between its words and none around them.
pub fn collapse_whitespace(s: &str) -> (r: String)
    ensures
        r@ == single_spaced(s@),
{
    let words = text::words_of(s);
    text::joined(&words, " ")
}

/// The symbol of a company that is known by this name, in lower case.
pub open spec fn known(name: Seq<char>) -> Option<Seq<char>> {
    if name == "atos"@ || name == "atos origin"@ {
        Some("ATO.PA"@)
    } else if name == "lvmh"@ || name == "lvmh moet hennessy"@ || name == "moet hennessy"@ {
        Some("MC.PA"@)
    } else if name == "airbus"@ || name == "airbus group"@ {
        Some("AIR.PA"@)
    } else if name == "bnp"@ || name == "bnp paribas"@ {
        Some("BNP.PA"@)
    } else if name == "sanofi"@ {
        Some("SAN.PA"@)
    } else if name == "orange"@ {
        Some("ORA.PA"@)
    } else if name == "capgemini"@ {
        Some("CAP.PA"@)
    } else if name == "societe generale"@ || name == "société générale"@ || name == "sg"@ {
        Some("GLE.PA"@)
    } else if name == "axa"@ {
        Some("CS.PA"@)
    } else if name == "total"@ || name == "totalenergies"@ {
        Some("TTE.PA"@)
    } else if name == "renault"@ {
        Some("RNO.PA"@)
    } else if name == "stellantis"@ {
        Some("STLA.PA"@)
    } else if name == "thales"@ {
        Some("HO.PA"@)
    } else if name == "schneider"@ || name == "schneider electric"@ {
        Some("SU.PA"@)
    } else if name == "engie"@ {
        Some("ENGI.PA"@)
    } else if name == "vivendi"@ || name == "veolia"@ {
        Some("VIE.PA"@)
    } else if name == "danone"@ {
        Some("BN.PA"@)
    } else if name == "l'oreal"@ || name == "loreal"@ || name == "l'oréal"@ || name == "oreal"@ {
        Some("OR.PA"@)
    } else if name == "publicis"@ {
        Some("PUB.PA"@)
    } else if name == "pernod ricard"@ || name == "pernod-ricard"@ || name == "pernod"@ {
        Some("RI.PA"@)
    } else if name == "carrefour"@ {
        Some("CA.PA"@)
    } else if name == "credit agricole"@ {
        Some("ACA.PA"@)
    } else if name == "bouygues"@ {
        Some("EN.PA"@)
    } else if name == "michelin"@ {
        Some("ML.PA"@)
    } else if name == "kering"@ {
        Some("KER.PA"@)
    } else if name == "hermes"@ || name == "hermès"@ {
        Some("RMS.PA"@)
    } else if name == "dassault systemes"@ || name == "dassault systémes"@ {
        Some("DSY.PA"@)
    } else if name == "dassault"@ {
        Some("AM.PA"@)
    } else if name == "saint gobain"@ || name == "saint-gobain"@ {
        Some("SGO.PA"@)
    } else if name == "alstom"@ {
        Some("ALO.PA"@)
    } else if name == "edenred"@ {
        Some("EDEN.PA"@)
    } else if name == "siemens"@ {
        Some("SIE.DE"@)
    } else if name == "sap"@ {
        Some("SAP.DE"@)
    } else if name == "allianz"@ {
        Some("ALV.DE"@)
    } else if name == "volkswagen"@ || name == "vw"@ {
        Some("VOW3.DE"@)
    } else if name == "bmw"@ {
        Some("BMW.DE"@)
    } else if name == "basf"@ {
        Some("BAS.DE"@)
    } else if name == "shell"@ {
        Some("SHEL.L"@)
    } else if name == "bp"@ {
        Some("BP.L"@)
    } else if name == "astrazeneca"@ || name == "astra zeneca"@ {
        Some("AZN.L"@)
    } else if name == "unilever"@ {
        Some("ULVR.L"@)
    } else if name == "hsbc"@ {
        Some("HSBA.L"@)
    } else if name == "eni"@ {
        Some("ENI.MI"@)
    } else if name == "enel"@ {
        Some("ENEL.MI"@)
    } else if name == "intesa sanpaolo"@ {
        Some("ISP.MI"@)
    } else if name == "apple"@ {
        Some("AAPL.US"@)
    } else if name == "microsoft"@ {
        Some("MSFT.US"@)
    } else if name == "nvidia"@ {
        Some("NVDA.US"@)
    } else if name == "amazon"@ {
        Some("AMZN.US"@)
    } else if name == "google"@ || name == "alphabet"@ {
        Some("GOOGL.US"@)
    } else if name == "meta"@ {
        Some("META.US"@)
    } else if name == "tesla"@ {
        Some("TSLA.US"@)
    } else if name == "netflix"@ {
        Some("NFLX.US"@)
    } else if name == "ibm"@ {
        Some("IBM.US"@)
    } else {
        None
    }
}

/// The symbol of a company that is known by this name, in lower case.
fn lookup(name: &str) -> (r: Option<&'static str>)
    ensures
        match r {
            Some(t) => known(name@) == Some(t@),
            None => known(name@) is None,
        },
{
    if text::same(name, "atos") || text::same(name, "atos origin") {
        Some("ATO.PA")
    } else if text::same(name, "lvmh") || text::same(name, "lvmh moet hennessy") || text::same(name, "moet hennessy") {
        Some("MC.PA")
    } else if text::same(name, "airbus") || text::same(name, "airbus group") {
        Some("AIR.PA")
    } else if text::same(name, "bnp") || text::same(name, "bnp paribas") {
        Some("BNP.PA")
    } else if text::same(name, "sanofi") {
        Some("SAN.PA")
    } else if text::same(name, "orange") {
        Some("ORA.PA")
    } else if text::same(name, "capgemini") {
        Some("CAP.PA")
    } else if text::same(name, "societe generale") || text::same(name, "société générale") || text::same(name, "sg") {
        Some("GLE.PA")
    } else if text::same(name, "axa") {
        Some("CS.PA")
    } else if text::same(name, "total") || text::same(name, "totalenergies") {
        Some("TTE.PA")
    } else if text::same(name, "renault") {
        Some("RNO.PA")
    } else if text::same(name, "stellantis") {
        Some("STLA.PA")
    } else if text::same(name, "thales") {
        Some("HO.PA")
    } else if text::same(name, "schneider") || text::same(name, "schneider electric") {
        Some("SU.PA")
    } else if text::same(name, "engie") {
        Some("ENGI.PA")
    } else if text::same(name, "vivendi") || text::same(name, "veolia") {
        Some("VIE.PA")
    } else if text::same(name, "danone") {
        Some("BN.PA")
    } else if text::same(name, "l'oreal") || text::same(name, "loreal") || text::same(name, "l'oréal") || text::same(name, "oreal") {
        Some("OR.PA")
    } else if text::same(name, "publicis") {
        Some("PUB.PA")
    } else if text::same(name, "pernod ricard") || text::same(name, "pernod-ricard") || text::same(name, "pernod") {
        Some("RI.PA")
    } else if text::same(name, "carrefour") {
        Some("CA.PA")
    } else if text::same(name, "credit agricole") {
        Some("ACA.PA")
    } else if text::same(name, "bouygues") {
        Some("EN.PA")
    } else if text::same(name, "michelin") {
        Some("ML.PA")
    } else if text::same(name, "kering") {
        Some("KER.PA")
    } else if text::same(name, "hermes") || text::same(name, "hermès") {
        Some("RMS.PA")
    } else if text::same(name, "dassault systemes") || text::same(name, "dassault systémes") {
        Some("DSY.PA")
    } else if text::same(name, "dassault") {
        Some("AM.PA")
    } else if text::same(name, "saint gobain") || text::same(name, "saint-gobain") {
        Some("SGO.PA")
    } else if text::same(name, "alstom") {
        Some("ALO.PA")
    } else if text::same(name, "edenred") {
        Some("EDEN.PA")
    } else if text::same(name, "siemens") {
        Some("SIE.DE")
    } else if text::same(name, "sap") {
        Some("SAP.DE")
    } else if text::same(name, "allianz") {
        Some("ALV.DE")
    } else if text::same(name, "volkswagen") || text::same(name, "vw") {
        Some("VOW3.DE")
    } else if text::same(name, "bmw") {
        Some("BMW.DE")
    } else if text::same(name, "basf") {
        Some("BAS.DE")
    } else if text::same(name, "shell") {
        Some("SHEL.L")
    } else if text::same(name, "bp") {
        Some("BP.L")
    } else if text::same(name, "astrazeneca") || text::same(name, "astra zeneca") {
        Some("AZN.L")
    } else if text::same(name, "unilever") {
        Some("ULVR.L")
    } else if text::same(name, "hsbc") {
        Some("HSBA.L")
    } else if text::same(name, "eni") {
        Some("ENI.MI")
    } else if text::same(name, "enel") {
        Some("ENEL.MI")
    } else if text::same(name, "intesa sanpaolo") {
        Some("ISP.MI")
    } else if text::same(name, "apple") {
        Some("AAPL.US")
    } else if text::same(name, "microsoft") {
        Some("MSFT.US")
    } else if text::same(name, "nvidia") {
        Some("NVDA.US")
    } else if text::same(name, "amazon") {
        Some("AMZN.US")
    } else if text::same(name, "google") || text::same(name, "alphabet") {
        Some("GOOGL.US")
    } else if text::same(name, "meta") {
        Some("META.US")
    } else if text::same(name, "tesla") {
        Some("TSLA.US")
    } else if text::same(name, "netflix") {
        Some("NFLX.US")
    } else if text::same(name, "ibm") {
        Some("IBM.US")
    } else {
        None
    }
}

/// A capital letter of Latin-1 made small, with or without an accent; any other
/// character unchanged.
pub open spec fn fold_char(c: char) -> char {
    if ('À' <= c <= 'Þ') && c != '×' {
        (c as u32 + 32) as char
    } else {
        text::lower_char(c)
    }
}

/// A text with the capital letters of Latin-1 made small. The names of companies
/// hold no other letters.
pub open spec fn fold(s: Seq<char>) -> Seq<char> {
    s.map_values(|c: char| fold_char(c))
}

/// A text with the capital letters of Latin-1 made small.
fn folded(s: &str) -> (r: String)
    ensures
        r@ == fold(s@),
{
    let v = text::chars_of(s);
    let mut out = String::new();
    let mut i: usize = 0;
    while i < v.len()
        invariant
            i <= v.len(),
            v@ == s@,
            out@ == fold(s@.take(i as int)),
        decreases v.len() - i,
    {
        let c = v[i];
        let small = if 'À' <= c && c <= 'Þ' && c != '×' {
            (c as u8 + 32) as char
        } else {
            text::to_lower_char(c)
        };
        out.push(small);
        i += 1;
        assert(out@ =~= fold(s@.take(i as int)));
    }
    assert(s@.take(i as int) =~= s@);
    out
}

/// The symbol of a company: neither the case of letters nor the amount of white
/// space matters.
pub open spec fn company_symbol(input: Seq<char>) -> Option<Seq<char>> {
    known(fold(single_spaced(text::trim(input))))
}

/// The symbol of a company.
pub fn resolve_known_company(input: &str) -> (r: Option<&'static str>)
    ensures
        match r {
            Some(t) => company_symbol(input@) == Some(t@),
            None => company_symbol(input@) is None,
        },
{
    let trimmed = text::trimmed(input);
    let spaced = collapse_whitespace(trimmed.as_str());
    let name = folded(spaced.as_str());
    lookup(name.as_str())
}

// ---- Symbols ------------------------------------------------------------

/// A ticker in upper case, with an exchange: without one of its own, that of the
/// United States.
pub open spec fn with_exchange(raw: Seq<char>) -> Seq<char> {
    let upper = text::upper(text::trim(raw));
    if text::contains(upper, "."@) {
        upper
    } else {
        upper + ".US"@
    }
}

/// A ticker in upper case, with an exchange.
pub fn normalise_ticker(raw: &str) -> (r: String)
    ensures
        r@ == with_exchange(raw@),
{
    let trimmed = text::trimmed(raw);
    let upper = text::to_upper(trimmed.as_str());
    if text::has(upper.as_str(), ".") {
        upper
    } else {
        upper.concat(".US")
    }
}

/// The symbol that an input stands for.
pub open spec fn symbol_of(input: Seq<char>) -> Seq<char> {
    match company_symbol(input) {
        Some(t) => t,
        None => with_exchange(input),
    }
}

/// The symbol that an input stands for.
pub fn resolve(input: &str) -> (r: String)
    ensures
        r@ == symbol_of(input@),
{
    match resolve_known_company(input) {
        Some(t) => text::own(t),
        None => normalise_ticker(input),
    }
}

/// The index of the last `c` in `s`, else -1.
pub open spec fn last_index_of(s: Seq<char>, c: char) -> int
    decreases s.len(),
{
    if s.len() == 0 {
        -1
    } else if s.last() == c {
        s.len() - 1
    } else {
        last_index_of(s.drop_last(), c)
    }
}

/// What follows the last dot.
pub open spec fn suffix_of(s: Seq<char>) -> Option<Seq<char>> {
    let i = last_index_of(s, '.');
    if i < 0 {
        None
    } else {
        Some(s.skip(i + 1))
    }
}

/// The last index is within the text.
proof fn lemma_last_index_of(s: Seq<char>, c: char)
    ensures
        -1 <= last_index_of(s, c) < s.len(),
    decreases s.len(),
{
    if s.len() > 0 && s.last() != c {
        lemma_last_index_of(s.drop_last(), c);
    }
}

/// What follows the last dot.
fn suffix(s: &str) -> (r: Option<String>)
    ensures
        text::opt_text(r) == suffix_of(s@),
{
    let v = text::chars_of(s);
    let n: usize = v.len();
    let mut i: usize = n;
    proof {
        lemma_last_index_of(s@, '.');
        assert(s@.take(n as int) == s@);
    }
    while i > 0
        invariant
            v@ == s@,
            n == v.len(),
            i <= n,
            last_index_of(s@, '.') == last_index_of(s@.take(i as int), '.'),
        decreases i,
    {
        proof {
            assert(s@.take(i as int).drop_last() == s@.take(i - 1));
        }
        if v[i - 1] == '.' {
            let tail = text::string_of(v.as_slice(), i, n);
            assert(tail@ == s@.skip(i as int));
            return Some(tail);
        }
        i -= 1;
    }
    None
}

/// What precedes the first dot.
pub open spec fn root_of(s: Seq<char>) -> Seq<char> {
    s.take(text::index_of(s, '.', 0))
}

/// An exchange, unless it is the one that is meant anyway.
pub open spec fn unless_meant(exchange: Seq<char>, meant: Seq<char>) -> Seq<Seq<char>> {
    if exchange == meant {
        Seq::empty()
    } else {
        seq![exchange]
    }
}

/// The exchanges that are tried, each once: the one that is meant, then those of
/// Europe, last the one of the United States.
pub open spec fn exchanges(meant: Seq<char>) -> Seq<Seq<char>> {
    seq![meant] + unless_meant("PA"@, meant) + unless_meant("L"@, meant) + unless_meant(
        "DE"@,
        meant,
    ) + unless_meant("MI"@, meant) + unless_meant("US"@, meant)
}

/// The exchange that a symbol means.
pub open spec fn meant_exchange(symbol: Seq<char>) -> Seq<char> {
    match suffix_of(symbol) {
        Some(x) => text::upper(x),
        None => "US"@,
    }
}

/// The symbols that are tried, in order.
pub open spec fn symbols(resolved: Seq<char>) -> Seq<Seq<char>> {
    exchanges(meant_exchange(resolved)).map_values(|x: Seq<char>| root_of(resolved) + "."@ + x)
}

/// Add the symbol of an exchange, unless it is the one that is meant anyway.
fn push_symbol(out: &mut Vec<String>, root: &str, exchange: &str, meant: &str)
    ensures
        text::texts(final(out)@) == text::texts(old(out)@) + unless_meant(
            exchange@,
            meant@,
        ).map_values(|x: Seq<char>| root@ + "."@ + x),
{
    let ghost before = text::texts(out@);
    let ghost f = |x: Seq<char>| root@ + "."@ + x;
    if !text::same(exchange, meant) {
        let symbol = text::own(root).concat(".").concat(exchange);
        out.push(symbol);
        assert(text::texts(out@) == before + seq![exchange@].map_values(f));
    } else {
        assert(Seq::<Seq<char>>::empty().map_values(f) == Seq::<Seq<char>>::empty());
        assert(before + Seq::<Seq<char>>::empty() == before);
    }
}

/// Mapping goes piece by piece.
proof fn lemma_map_pieces(a: Seq<Seq<char>>, b: Seq<Seq<char>>, f: spec_fn(Seq<char>) -> Seq<char>)
    ensures
        (a + b).map_values(f) == a.map_values(f) + b.map_values(f),
{
    assert((a + b).map_values(f) =~= a.map_values(f) + b.map_values(f));
}

/// The symbols that are tried, in order.
pub fn tried_symbols(resolved: &str) -> (r: Vec<String>)
    ensures
        text::texts(r@) == symbols(resolved@),
{
    let v = text::chars_of(resolved);
    let dot: usize = text::position_of(v.as_slice(), '.', 0);
    let root = text::string_of(v.as_slice(), 0, dot);
    assert(root@ == root_of(resolved@));
    let meant = match suffix(resolved) {
        Some(x) => text::to_upper(x.as_str()),
        None => text::own("US"),
    };
    assert(meant@ == meant_exchange(resolved@));
    let mut out: Vec<String> = Vec::new();
    let first = text::own(root.as_str()).concat(".").concat(meant.as_str());
    out.push(first);
    let ghost f = |x: Seq<char>| root@ + "."@ + x;
    assert(text::texts(out@) == seq![meant@].map_values(f));
    push_symbol(&mut out, root.as_str(), "PA", meant.as_str());
    push_symbol(&mut out, root.as_str(), "L", meant.as_str());
    push_symbol(&mut out, root.as_str(), "DE", meant.as_str());
    push_symbol(&mut out, root.as_str(), "MI", meant.as_str());
    push_symbol(&mut out, root.as_str(), "US", meant.as_str());
    proof {
        let m = meant@;
        let e1 = seq![m] + unless_meant("PA"@, m);
        let e2 = e1 + unless_meant("L"@, m);
        let e3 = e2 + unless_meant("DE"@, m);
        let e4 = e3 + unless_meant("MI"@, m);
        lemma_map_pieces(seq![m], unless_meant("PA"@, m), f);
        lemma_map_pieces(e1, unless_meant("L"@, m), f);
        lemma_map_pieces(e2, unless_meant("DE"@, m), f);
        lemma_map_pieces(e3, unless_meant("MI"@, m), f);
        lemma_map_pieces(e4, unless_meant("US"@, m), f);
    }
    out
}

// ---- Answers ------------------------------------------------------------

/// Whether an answer has no quote: it does not begin with the head of the table.
pub open spec fn lacks_data(body: Seq<char>) -> bool {
    !text::starts_with(text::trim(body), "Symbol,"@)
}

/// Whether an answer has no quote.
pub fn is_no_data(body: &str) -> (r: bool)
    ensures
        r == lacks_data(body@),
{
    let trimmed = text::trimmed(body);
    !text::begins(trimmed.as_str(), "Symbol,")
}

/// The cells of a row.
pub open spec fn cells(row: Seq<char>) -> Seq<Seq<char>> {
    text::split(row, ',').map_values(|c: Seq<char>| text::trim(c))
}

/// The cells of a row.
fn cells_of(row: &str) -> (r: Vec<String>)
    ensures
        text::texts(r@) == cells(row@),
{
    let parts = text::split_on(row, ',');
    let ghost all = text::texts(parts@);
    let mut out: Vec<String> = Vec::new();
    let mut i: usize = 0;
    while i < parts.len()
        invariant
            i <= parts.len(),
            all == text::texts(parts@),
            out@.len() == i,
            forall|k: int| 0 <= k < i ==> (#[trigger] out@[k])@ == text::trim(all[k]),
        decreases parts.len() - i,
    {
        out.push(text::trimmed(parts[i].as_str()));
        i += 1;
    }
    assert(text::texts(out@) == cells(row@));
    out
}

/// The value in the last column called `name`.
pub open spec fn column(heads: Seq<Seq<char>>, values: Seq<Seq<char>>, name: Seq<char>) -> Option<
    Seq<char>,
>
    decreases heads.len(),
{
    if heads.len() == 0 {
        None
    } else if heads.last() == name {
        Some(values[heads.len() - 1])
    } else {
        column(heads.drop_last(), values, name)
    }
}

/// The value in the last column called `name`.
fn column_of<'a>(heads: &Vec<String>, values: &'a Vec<String>, name: &str) -> (r: Option<&'a String>)
    requires
        heads.len() == values.len(),
    ensures
        match r {
            Some(v) => column(text::texts(heads@), text::texts(values@), name@) == Some(v@),
            None => column(text::texts(heads@), text::texts(values@), name@) is None,
        },
{
    let ghost hs = text::texts(heads@);
    let mut i: usize = heads.len();
    assert(hs.take(i as int) == hs);
    while i > 0
        invariant
            i <= heads.len(),
            heads.len() == values.len(),
            hs == text::texts(heads@),
            column(hs, text::texts(values@), name@) == column(
                hs.take(i as int),
                text::texts(values@),
                name@,
            ),
        decreases i,
    {
        proof {
            assert(hs.take(i as int).drop_last() == hs.take(i - 1));
        }
        if text::same(heads[i - 1].as_str(), name) {
            return Some(&values[i - 1]);
        }
        i -= 1;
    }
    None
}

/// A quote. The prices are the texts of the answer; what is not there or only a
/// dash is missing.
#[derive(Debug, Clone, PartialEq, Eq)]
pub struct Quote {
    pub ticker: String,
    pub exchange: String,
    pub open: Option<String>,
    pub high: Option<String>,
    pub low: Option<String>,
    pub close: Option<String>,
    pub volume: Option<i64>,
    pub date: String,
    pub time: String,
}

/// A quote, as values.
pub struct QuoteView {
    pub ticker: Seq<char>,
    pub exchange: Seq<char>,
    pub open: Option<Seq<char>>,
    pub high: Option<Seq<char>>,
    pub low: Option<Seq<char>>,
    pub close: Option<Seq<char>>,
    pub volume: Option<int>,
    pub date: Seq<char>,
    pub time: Seq<char>,
}

/// A number that may be missing, as values.
pub open spec fn opt_int(n: Option<i64>) -> Option<int> {
    match n {
        Some(v) => Some(v as int),
        None => None,
    }
}

impl View for Quote {
    type V = QuoteView;

    open spec fn view(&self) -> QuoteView {
        QuoteView {
            ticker: self.ticker@,
            exchange: self.exchange@,
            open: text::opt_text(self.open),
            high: text::opt_text(self.high),
            low: text::opt_text(self.low),
            close: text::opt_text(self.close),
            volume: opt_int(self.volume),
            date: self.date@,
            time: self.time@,
        }
    }
}

/// What a cell holds: nothing when it is empty or only a dash.
pub open spec fn present(cell: Option<Seq<char>>) -> Option<Seq<char>> {
    match cell {
        Some(c) => if c == "-"@ || c.len() == 0 {
            None
        } else {
            Some(c)
        },
        None => None,
    }
}

/// A text, the empty one when there is none.
pub open spec fn or_empty(s: Option<Seq<char>>) -> Seq<char> {
    match s {
        Some(t) => t,
        None => Seq::empty(),
    }
}

/// The quote in a table of one row.
pub open spec fn quote_in(
    heads: Seq<Seq<char>>,
    values: Seq<Seq<char>>,
    requested: Seq<char>,
) -> QuoteView {
    let ticker = match column(heads, values, "Symbol"@) {
        Some(t) => t,
        None => requested,
    };
    QuoteView {
        ticker,
        exchange: or_empty(suffix_of(ticker)),
        open: present(column(heads, values, "Open"@)),
        high: present(column(heads, values, "High"@)),
        low: present(column(heads, values, "Low"@)),
        close: present(column(heads, values, "Close"@)),
        volume: match present(column(heads, values, "Volume"@)) {
            Some(t) => text::parse_int(t),
            None => None,
        },
        date: or_empty(column(heads, values, "Date"@)),
        time: or_empty(column(heads, values, "Time"@)),
    }
}

/// The quote in an answer: a head and one row of as many cells.
pub open spec fn quote_of(body: Seq<char>, requested: Seq<char>) -> Result<QuoteView, ErrorView> {
    let b = text::trim(body);
    let rows = text::lines(b);
    if b.len() == 0 {
        Err(
            ErrorView::AgentFailed(
                "no data for ticker `"@ + requested
                    + "` (empty response — check the symbol or add an exchange suffix like `.US` or `.PA`)"@,
            ),
        )
    } else if rows.len() == 1 && text::starts_with(b, "N/D"@) {
        Err(
            ErrorView::AgentFailed(
                "no data for ticker `"@ + requested + "` (Stooq returned `N/D`)"@,
            ),
        )
    } else if rows.len() < 2 {
        Err(ErrorView::AgentFailed("CSV missing data row"@))
    } else if rows.len() > 2 {
        Err(ErrorView::AgentFailed("CSV has more than 2 rows; refusing to parse"@))
    } else {
        let heads = cells(rows[0]);
        let values = cells(rows[1]);
        if heads.len() != values.len() {
            Err(
                ErrorView::AgentFailed(
                    "CSV row width mismatch: header has "@ + text::digits(heads.len())
                        + " columns, data has "@ + text::digits(values.len()),
                ),
            )
        } else {
            Ok(quote_in(heads, values, requested))
        }
    }
}

/// A quote or an error, as values.
pub open spec fn quote_view(r: Result<Quote, AgentError>) -> Result<QuoteView, ErrorView> {
    match r {
        Ok(q) => Ok(q@),
        Err(e) => Err(e@),
    }
}

/// What a cell holds.
fn present_text(cell: Option<&String>) -> (r: Option<String>)
    ensures
        text::opt_text(r) == present(
            match cell {
                Some(c) => Some(c@),
                None => None,
            },
        ),
{
    match cell {
        Some(c) => {
            let v = text::chars_of(c.as_str());
            if v.len() == 0 || text::same(c.as_str(), "-") {
                None
            } else {
                Some(text::own(c.as_str()))
            }
        },
        None => None,
    }
}

/// A text, the empty one when there is none.
fn text_or_empty(cell: Option<&String>) -> (r: String)
    ensures
        r@ == or_empty(
            match cell {
                Some(c) => Some(c@),
                None => None,
            },
        ),
{
    match cell {
        Some(c) => text::own(c.as_str()),
        None => String::new(),
    }
}

/// The quote in a table of one row.
fn read_quote(heads: &Vec<String>, values: &Vec<String>, requested: &str) -> (r: Quote)
    requires
        heads.len() == values.len(),
    ensures
        r@ == quote_in(text::texts(heads@), text::texts(values@), requested@),
{
    let ticker = match column_of(heads, values, "Symbol") {
        Some(t) => text::own(t.as_str()),
        None => text::own(requested),
    };
    let exchange = match suffix(ticker.as_str()) {
        Some(x) => x,
        None => String::new(),
    };
    let volume = match present_text(column_of(heads, values, "Volume")) {
        Some(t) => text::read_int(t.as_str()),
        None => None,
    };
    Quote {
        ticker,
        exchange,
        open: present_text(column_of(heads, values, "Open")),
        high: present_text(column_of(heads, values, "High")),
        low: present_text(column_of(heads, values, "Low")),
        close: present_text(column_of(heads, values, "Close")),
        volume,
        date: text_or_empty(column_of(heads, values, "Date")),
        time: text_or_empty(column_of(heads, values, "Time")),
    }
}

/// The quote in an answer.
pub fn parse_stooq_csv(body: &str, requested: &str) -> (r: Result<Quote, AgentError>)
    ensures
        quote_view(r) == quote_of(body@, requested@),
{
    let b = text::trimmed(body);
    let chars = text::chars_of(b.as_str());
    if chars.len() == 0 {
        let mut m = text::own("no data for ticker `");
        m.append(requested);
        m.append(
            "` (empty response — check the symbol or add an exchange suffix like `.US` or `.PA`)",
        );
        return Err(AgentError::AgentFailed(m));
    }
    let rows = text::lines_of(b.as_str());
    let ghost lines = text::lines(b@);
    assert(lines.len() == rows.len());
    if rows.len() == 1 && text::begins(b.as_str(), "N/D") {
        let mut m = text::own("no data for ticker `");
        m.append(requested);
        m.append("` (Stooq returned `N/D`)");
        return Err(AgentError::AgentFailed(m));
    }
    if rows.len() < 2 {
        return Err(AgentError::AgentFailed(text::own("CSV missing data row")));
    }
    if rows.len() > 2 {
        return Err(
            AgentError::AgentFailed(text::own("CSV has more than 2 rows; refusing to parse")),
        );
    }
    assert(rows@[0]@ == lines[0]);
    assert(rows@[1]@ == lines[1]);
    let heads = cells_of(rows[0].as_str());
    let values = cells_of(rows[1].as_str());
    assert(heads.len() == cells(lines[0]).len());
    assert(values.len() == cells(lines[1]).len());
    if heads.len() != values.len() {
        let mut m = text::own("CSV row width mismatch: header has ");
        text::push_digits(&mut m, heads.len() as u64);
        m.append(" columns, data has ");
        text::push_digits(&mut m, values.len() as u64);
        return Err(AgentError::AgentFailed(m));
    }
    Ok(read_quote(&heads, &values, requested))
}

// ---- Arguments ----------------------------------------------------------

/// Whether a character may stand in a ticker or a name.
pub open spec fn ticker_char(c: char) -> bool {
    ('0' <= c <= '9') || ('A' <= c <= 'Z') || ('a' <= c <= 'z') || c == ' ' || c == '.' || c == '-'
        || c == '\'' || c == '/'
}

/// The first index at or after `i` whose character may not stand in a ticker.
pub open spec fn first_bad(s: Seq<char>, i: int) -> int
    decreases s.len() - i,
{
    if i >= s.len() || !ticker_char(s[i]) {
        i
    } else {
        first_bad(s, i + 1)
    }
}

/// The ticker or name that the arguments of a call give.
pub open spec fn ticker_of(v: JsonView) -> Result<Seq<char>, ErrorView> {
    if !(v is Object) {
        Err(ErrorView::InvalidArguments("arguments must be a JSON object"@))
    } else {
        match json::str_of(json::field(v, "ticker"@)) {
            None => Err(ErrorView::InvalidArguments("`ticker` (string) is required"@)),
            Some(raw) => {
                let t = text::trim(raw);
                let bad = first_bad(t, 0);
                if t.len() == 0 {
                    Err(ErrorView::InvalidArguments("`ticker` must not be empty"@))
                } else if text::utf8(t).len() > MAX_TICKER_BYTES {
                    Err(
                        ErrorView::InvalidArguments(
                            "`ticker` must be at most 40 characters (got "@ + text::digits(
                                text::utf8(t).len(),
                            ) + ")"@,
                        ),
                    )
                } else if bad < t.len() {
                    Err(
                        ErrorView::InvalidArguments(
                            "`ticker` contains an unsupported character `"@ + seq![t[bad]]
                                + "`; allowed: letters, digits, space, `.`, `-`, `'`, `/`"@,
                        ),
                    )
                } else {
                    Ok(t)
                }
            },
        }
    }
}

/// The ticker or name that the arguments of a call give.
pub fn parse_args(args: &Json) -> (r: Result<String, AgentError>)
    ensures
        agents::outcome(r) == ticker_of(args@),
{
    if !args.is_object() {
        return Err(AgentError::InvalidArguments(text::own("arguments must be a JSON object")));
    }
    let t = match args.get("ticker") {
        Some(j) => match j.as_str() {
            Some(s) => text::trimmed(s),
            None => {
                return Err(
                    AgentError::InvalidArguments(text::own("`ticker` (string) is required")),
                );
            },
        },
        None => {
            return Err(AgentError::InvalidArguments(text::own("`ticker` (string) is required")));
        },
    };
    let v = text::chars_of(t.as_str());
    if v.len() == 0 {
        return Err(AgentError::InvalidArguments(text::own("`ticker` must not be empty")));
    }
    let size: usize = text::byte_len(t.as_str());
    if size > MAX_TICKER_BYTES {
        let mut m = text::own("`ticker` must be at most 40 characters (got ");
        text::push_digits(&mut m, size as u64);
        m.append(")");
        return Err(AgentError::InvalidArguments(m));
    }
    let mut i: usize = 0;
    while i < v.len()
        invariant
            i <= v.len(),
            v@ == t@,
            t@.len() > 0,
            text::utf8(t@).len() <= MAX_TICKER_BYTES,
            args@ is Object,
            json::str_of(json::field(args@, "ticker"@)) is Some,
            t@ == text::trim(json::str_of(json::field(args@, "ticker"@))->0),
            first_bad(t@, 0) == first_bad(t@, i as int),
        decreases v.len() - i,
    {
        let c = v[i];
        let ok = ('0' <= c && c <= '9') || ('A' <= c && c <= 'Z') || ('a' <= c && c <= 'z') || c
            == ' ' || c == '.' || c == '-' || c == '\'' || c == '/';
        if !ok {
            let mut m = text::own("`ticker` contains an unsupported character `");
            let ghost before = m@;
            m.push(c);
            assert(m@ == before + seq![c]);
            m.append("`; allowed: letters, digits, space, `.`, `-`, `'`, `/`");
            return Err(AgentError::InvalidArguments(m));
        }
        i += 1;
    }
    Ok(t)
}

// ---- A lookup, step by step ---------------------------------------------

/// The address of a symbol's quote.
pub open spec fn quote_url(symbol: Seq<char>) -> Seq<char> {
    "https://stooq.com/q/l/?s="@ + upstream::encoded(text::utf8(symbol), false)
        + "&f=sd2t2ohlcv&h&e=csv"@
}

/// The address of a symbol's quote.
pub fn build_url(symbol: &str) -> (r: String)
    ensures
        r@ == quote_url(symbol@),
{
    let code = upstream::url_encode(symbol, false);
    text::own("https://stooq.com/q/l/?s=").concat(code.as_str()).concat("&f=sd2t2ohlcv&h&e=csv")
}

/// What `String::from_utf8` says of bytes that are not UTF-8.
pub uninterp spec fn utf8_complaint(b: Seq<u8>) -> Seq<char>;

/// `String::from_utf8`: the text that the bytes encode, or the text of the error
/// when they are not UTF-8.
#[verifier::external_body]
fn strict_text(b: Vec<u8>) -> (r: Result<String, String>)
    ensures
        match r {
            Ok(s) => vstd::utf8::valid_utf8(b@) && s@ == vstd::utf8::decode_utf8(b@),
            Err(e) => !vstd::utf8::valid_utf8(b@) && e@ == utf8_complaint(b@),
        },
{
    String::from_utf8(b).map_err(|e| e.to_string())
}

/// The text of an answer, or why there is none.
pub open spec fn csv_of(o: Outcome) -> Result<Seq<char>, ErrorView> {
    match upstream::body_of(o, MAX_UPSTREAM_BYTES as int) {
        Err(e) => Err(e),
        Ok(b) => if vstd::utf8::valid_utf8(b) {
            Ok(vstd::utf8::decode_utf8(b))
        } else {
            Err(
                ErrorView::AgentFailed(
                    "upstream returned non-UTF-8 body: "@ + utf8_complaint(b),
                ),
            )
        },
    }
}

/// The text of an answer.
pub fn csv_body(o: Outcome) -> (r: Result<String, AgentError>)
    ensures
        agents::outcome(r) == csv_of(o),
{
    match upstream::body_within(o, MAX_UPSTREAM_BYTES) {
        Err(e) => Err(e),
        Ok(b) => match strict_text(b) {
            Ok(s) => Ok(s),
            Err(e) => {
                let m = text::own("upstream returned non-UTF-8 body: ").concat(e.as_str());
                Err(AgentError::AgentFailed(m))
            },
        },
    }
}

/// What is to be done next in a lookup.
#[derive(Debug)]
pub enum Next {
    /// Get the quote at this address.
    Get(String),
    /// The answer with data, and the symbol that has it; or why there is none.
    Done(Result<(String, String), AgentError>),
}

/// What is to be done next, as values.
pub enum NextView {
    Get(Seq<char>),
    Done(Result<(Seq<char>, Seq<char>), ErrorView>),
}

impl View for Next {
    type V = NextView;

    open spec fn view(&self) -> NextView {
        match *self {
            Next::Get(u) => NextView::Get(u@),
            Next::Done(Ok(p)) => NextView::Done(Ok((p.0@, p.1@))),
            Next::Done(Err(e)) => NextView::Done(Err(e@)),
        }
    }
}

/// A lookup under way.
#[derive(Debug)]
pub struct Lookup {
    symbols: Vec<String>,
    at: usize,
    last_error: Option<AgentError>,
}

/// A lookup under way, as values.
pub struct LookupView {
    /// The symbols to try.
    pub symbols: Seq<Seq<char>>,
    /// Which of them is being tried.
    pub at: int,
    /// The last error.
    pub last_error: Option<ErrorView>,
}

impl View for Lookup {
    type V = LookupView;

    closed spec fn view(&self) -> LookupView {
        LookupView {
            symbols: text::texts(self.symbols@),
            at: self.at as int,
            last_error: match self.last_error {
                Some(e) => Some(e@),
                None => None,
            },
        }
    }
}

/// The complaint when no symbol has data.
pub open spec fn no_symbol_has_data(tried: Seq<Seq<char>>) -> ErrorView {
    ErrorView::AgentFailed(
        "no data for ticker (Stooq returned no data for any of: "@ + text::join(tried, ", "@)
            + ". Try an explicit ticker like `ATO.PA` for Euronext Paris, `MC.PA` for LVMH, etc.)"@,
    )
}

/// What a lookup does when the symbol that was tried has no data.
pub open spec fn moved_on(v: LookupView, last_error: Option<ErrorView>) -> (LookupView, NextView) {
    let w = LookupView { at: v.at + 1, last_error, ..v };
    (
        w,
        if w.at < v.symbols.len() {
            NextView::Get(quote_url(v.symbols[w.at]))
        } else {
            match last_error {
                Some(e) => NextView::Done(Err(e)),
                None => NextView::Done(Err(no_symbol_has_data(v.symbols))),
            }
        },
    )
}

/// What a lookup does with the answer for the symbol that was tried.
pub open spec fn answered(v: LookupView, r: Result<Seq<char>, ErrorView>) -> (LookupView, NextView) {
    match r {
        Ok(body) => if lacks_data(body) {
            moved_on(v, v.last_error)
        } else {
            (v, NextView::Done(Ok((body, v.symbols[v.at]))))
        },
        Err(e) => moved_on(v, Some(e)),
    }
}

impl Lookup {
    /// A symbol is being tried.
    pub open spec fn wf(&self) -> bool {
        0 <= self@.at < self@.symbols.len()
    }

    /// A lookup that tries its first symbol.
    pub fn new(resolved: &str) -> (r: (Self, String))
        ensures
            r.0.wf(),
            r.0@ == (LookupView { symbols: symbols(resolved@), at: 0, last_error: None }),
            r.1@ == quote_url(symbols(resolved@)[0]),
    {
        let list = tried_symbols(resolved);
        assert(text::texts(list@).len() == list@.len());
        assert(exchanges(meant_exchange(resolved@)).len() >= 1);
        let url = build_url(list[0].as_str());
        (Lookup { symbols: list, at: 0, last_error: None }, url)
    }

    /// The next symbol, or the end of the lookup.
    fn move_on(&mut self) -> (r: Next)
        requires
            old(self).wf(),
        ensures
            (final(self)@, r@) == moved_on(old(self)@, old(self)@.last_error),
            r@ is Get ==> final(self).wf(),
    {
        let n: usize = self.symbols.len();
        self.at = self.at + 1;
        if self.at < n {
            return Next::Get(build_url(self.symbols[self.at].as_str()));
        }
        match &self.last_error {
            Some(e) => Next::Done(Err(copy_error(e))),
            None => {
                let tried = text::joined(&self.symbols, ", ");
                let mut m = text::own("no data for ticker (Stooq returned no data for any of: ");
                m.append(tried.as_str());
                m.append(
                    ". Try an explicit ticker like `ATO.PA` for Euronext Paris, `MC.PA` for LVMH, etc.)",
                );
                Next::Done(Err(AgentError::AgentFailed(m)))
            },
        }
    }

    /// The request for the current symbol has come to an end.
    pub fn step(&mut self, o: Outcome) -> (r: Next)
        requires
            old(self).wf(),
        ensures
            (final(self)@, r@) == answered(old(self)@, csv_of(o)),
            r@ is Get ==> final(self).wf(),
    {
        match csv_body(o) {
            Ok(body) => {
                if is_no_data(body.as_str()) {
                    self.move_on()
                } else {
                    let symbol = text::own(self.symbols[self.at].as_str());
                    Next::Done(Ok((body, symbol)))
                }
            },
            Err(e) => {
                self.last_error = Some(e);
                self.move_on()
            },
        }
    }
}

/// An error once more.
fn copy_error(e: &AgentError) -> (r: AgentError)
    ensures
        r@ == e@,
{
    match e {
        AgentError::SandboxDenied(m) => AgentError::SandboxDenied(text::own(m.as_str())),
        AgentError::InvalidArguments(m) => AgentError::InvalidArguments(text::own(m.as_str())),
        AgentError::AgentFailed(m) => AgentError::AgentFailed(text::own(m.as_str())),
        AgentError::Upstream { status, body } => AgentError::Upstream {
            status: *status,
            body: text::own(body.as_str()),
        },
        AgentError::ResponseExceeded { budget } => AgentError::ResponseExceeded { budget: *budget },
    }
}

// ---- What the model is told ---------------------------------------------

/// A price of which the answer has a text; null when it has none.
pub open spec fn price_data(text: Option<Seq<char>>, number: JsonView) -> JsonView {
    match text {
        Some(_) => number,
        None => JsonView::Null,
    }
}

/// A price of which the answer has a text; null when it has none.
fn price(text: &Option<String>, number: Json) -> (r: Json)
    ensures
        r@ == price_data(text::opt_text(*text), number@),
{
    match text {
        Some(_) => number,
        None => Json::Null,
    }
}

/// A quote for the model. The prices that the answer has come as numbers, rounded
/// to four decimals, or as nothing; the others are null.
pub open spec fn quote_data(
    q: QuoteView,
    open: JsonView,
    high: JsonView,
    low: JsonView,
    close: JsonView,
) -> JsonView {
    JsonView::Object(
        map![
            "ticker"@ => JsonView::Str(q.ticker),
            "exchange"@ => JsonView::Str(q.exchange),
            "price"@ => price_data(q.close, close),
            "open"@ => price_data(q.open, open),
            "high"@ => price_data(q.high, high),
            "low"@ => price_data(q.low, low),
            "close_prev"@ => price_data(q.close, close),
            "volume"@ => match q.volume {
                Some(n) => JsonView::Num(NumView::Int(n)),
                None => JsonView::Null,
            },
            "as_of"@ => JsonView::Str(q.date),
            "as_of_time"@ => JsonView::Str(q.time),
        ],
    )
}

/// Texts as a list of JSON.
pub open spec fn text_items(v: Seq<Seq<char>>) -> Seq<JsonView> {
    v.map_values(|t: Seq<char>| JsonView::Str(t))
}

/// The answer of the agent around a quote.
pub open spec fn answer_data(data: JsonView, tried: Seq<Seq<char>>, fetched_at: Seq<char>) -> JsonView {
    JsonView::Object(
        map![
            "ok"@ => JsonView::Bool(true),
            "data"@ => data,
            "source"@ => JsonView::Str("stooq"@),
            "tried"@ => JsonView::Array(text_items(tried)),
            "fetched_at"@ => JsonView::Str(fetched_at),
        ],
    )
}

/// The prices of a quote as numbers, or nothing.
#[derive(Debug)]
pub struct Prices {
    pub open: Json,
    pub high: Json,
    pub low: Json,
    pub close: Json,
}

impl Quote {
    /// The quote for the model.
    pub fn data(&self, prices: Prices) -> (r: Json)
        ensures
            r@ == quote_data(self@, prices.open@, prices.high@, prices.low@, prices.close@),
    {
        let volume = match self.volume {
            Some(n) => Json::signed(n),
            None => Json::Null,
        };
        let close = price(&self.close, prices.close);
        let mut j = Json::object();
        j.set("ticker", Json::text(self.ticker.as_str()));
        j.set("exchange", Json::text(self.exchange.as_str()));
        j.set("price", close.copy());
        j.set("open", price(&self.open, prices.open));
        j.set("high", price(&self.high, prices.high));
        j.set("low", price(&self.low, prices.low));
        j.set("close_prev", close);
        j.set("volume", volume);
        j.set("as_of", Json::text(self.date.as_str()));
        j.set("as_of_time", Json::text(self.time.as_str()));
        j
    }
}

/// Texts as a list of JSON.
fn list_of(v: &Vec<String>) -> (r: Json)
    ensures
        r@ == JsonView::Array(text_items(text::texts(v@))),
{
    let ghost all = text_items(text::texts(v@));
    let mut out: Vec<Json> = Vec::new();
    let mut i: usize = 0;
    while i < v.len()
        invariant
            i <= v.len(),
            all == text_items(text::texts(v@)),
            out@.len() == i,
            json::items_view(out@, i as nat) == all.take(i as int),
        decreases v.len() - i,
    {
        let ghost before = out@;
        out.push(Json::text(v[i].as_str()));
        proof {
            json::lemma_items_prefix(before, out@, i as nat);
        }
        i += 1;
    }
    assert(all.take(i as int) == all);
    Json::Array(out)
}

/// What the agent is for.
pub const DESCRIPTION: &'static str =
    "Cours actuel d'un ticker boursier via Stooq. Accepte un ticker (AAPL, NVDA, ATO.PA, MC.PA) ou un nom de société courant (Atos, LVMH, Sanofi, Airbus, Apple, Microsoft, …). Aucune clé d'API. La résolution multi-bourse essaie `.US`, `.PA`, `.L`, `.DE`, `.MI` quand l'utilisateur ne précise pas l'échange. Use for 'cours de Atos', 'LVMH cours', 'AAPL stock price', 'prix action BNP'. Pass `ticker` (required).";

/// What the ticker is.
pub const TICKER_DESCRIPTION: &'static str =
    "Ticker symbol (e.g. 'AAPL', 'ATO.PA', 'MC.PA') or a common company name (e.g. 'Atos', 'LVMH', 'Apple'). When a name resolves via the built-in shortcut table, the agent uses the correct exchange on the first try.";

/// What a ticker looks like.
pub const TICKER_PATTERN: &'static str = "^[A-Za-z0-9 .'\\-]{1,40}$";

/// The schema of the arguments.
pub open spec fn schema() -> JsonView {
    JsonView::Object(
        map![
            "type"@ => JsonView::Str("object"@),
            "properties"@ => JsonView::Object(map![
                "ticker"@ => JsonView::Object(map![
                    "type"@ => JsonView::Str("string"@),
                    "pattern"@ => JsonView::Str(TICKER_PATTERN@),
                    "description"@ => JsonView::Str(TICKER_DESCRIPTION@),
                ]),
            ]),
            "required"@ => JsonView::Array(seq![JsonView::Str("ticker"@)]),
            "additionalProperties"@ => JsonView::Bool(false),
        ],
    )
}

/// The agent.
#[derive(Debug, Clone, Copy)]
pub struct StockAgent {
    /// How long connecting, and a request as a whole, may take, in seconds.
    pub timeout_secs: u64,
}

impl StockAgent {
    /// The agent, with the usual limit on the time of a request.
    pub fn new() -> (r: Self)
        ensures
            r.timeout_secs == HTTP_TIMEOUT_SECS,
            r.timeout_secs == 8,
    {
        StockAgent { timeout_secs: HTTP_TIMEOUT_SECS }
    }

    /// The name by which the model calls the agent.
    pub fn name(&self) -> (r: &'static str)
        ensures
            r@ == "get_stock_quote"@,
    {
        "get_stock_quote"
    }

    /// What the agent is for.
    pub fn description(&self) -> (r: &'static str)
        ensures
            r@ == DESCRIPTION@,
    {
        DESCRIPTION
    }

    /// The schema of the arguments.
    pub fn parameters_schema(&self) -> (r: Json)
        ensures
            r@ == schema(),
    {
        let mut ticker = Json::object();
        ticker.set("type", Json::text("string"));
        ticker.set("pattern", Json::text(TICKER_PATTERN));
        ticker.set("description", Json::text(TICKER_DESCRIPTION));
        let mut properties = Json::object();
        properties.set("ticker", ticker);
        let mut j = Json::object();
        j.set("type", Json::text("object"));
        j.set("properties", properties);
        j.set("required", Json::text_list("ticker"));
        j.set("additionalProperties", Json::Bool(false));
        j
    }

    /// What the registry knows of the agent.
    pub fn info(&self) -> (r: AgentInfo)
        ensures
            r@ == (AgentView {
                name: "get_stock_quote"@,
                description: DESCRIPTION@,
                parameters: schema(),
            }),
    {
        AgentInfo {
            name: text::own(self.name()),
            description: text::own(self.description()),
            parameters: self.parameters_schema(),
        }
    }

    /// What the agent does first with the arguments of a call: a lookup, and the
    /// address to get.
    pub fn begin(&self, args: &Json) -> (r: Result<(Lookup, String), AgentError>)
        ensures
            match r {
                Ok(p) => {
                    &&& ticker_of(args@) is Ok
                    &&& p.0.wf()
                    &&& p.0@ == (LookupView {
                        symbols: symbols(symbol_of(ticker_of(args@)->Ok_0)),
                        at: 0,
                        last_error: None,
                    })
                    &&& p.1@ == quote_url(symbols(symbol_of(ticker_of(args@)->Ok_0))[0])
                },
                Err(e) => ticker_of(args@) == Err::<Seq<char>, ErrorView>(e@),
            },
    {
        match parse_args(args) {
            Ok(t) => {
                let resolved = resolve(t.as_str());
                Ok(Lookup::new(resolved.as_str()))
            },
            Err(e) => Err(e),
        }
    }

    /// The answer at a time.
    pub fn reply_at(quote: &Quote, prices: Prices, tried: &Vec<String>, fetched_at: &str) -> (r:
        String)
        ensures
            r@ == json::json_text(
                answer_data(
                    quote_data(
                        quote@,
                        prices.open@,
                        prices.high@,
                        prices.low@,
                        prices.close@,
                    ),
                    text::texts(tried@),
                    fetched_at@,
                ),
            ),
    {
        let mut j = Json::object();
        j.set("ok", Json::Bool(true));
        j.set("data", quote.data(prices));
        j.set("source", Json::text("stooq"));
        j.set("tried", list_of(tried));
        j.set("fetched_at", Json::text(fetched_at));
        json::render(&j)
    }

    /// The answer now.
    pub fn reply(quote: &Quote, prices: Prices, lookup: &Lookup) -> (r: String)
        ensures
            exists|m: Moment|
                m.in_range() && r@ == json::json_text(
                    answer_data(
                        quote_data(
                            quote@,
                            prices.open@,
                            prices.high@,
                            prices.low@,
                            prices.close@,
                        ),
                        lookup@.symbols,
                        #[trigger] clock::utc_iso(m.secs, m.nanos),
                    ),
                ),
    {
        let m = clock::now();
        let at = clock::iso_of(m);
        Self::reply_at(quote, prices, &lookup.symbols, at.as_str())
    }
}

impl Default for StockAgent {
    fn default() -> (r: Self)
        ensures
            r.timeout_secs == HTTP_TIMEOUT_SECS,
            r.timeout_secs == 8,
    {
        StockAgent::new()
    }
}

// ---- Laws ---------------------------------------------------------------

/// White space is no letter.
proof fn lemma_fold_white(c: char)
    ensures
        text::is_white(fold_char(c)) == text::is_white(c),
{
}

/// Folding the case leaves the white space at the start where it is.
proof fn lemma_fold_trim_start(s: Seq<char>)
    ensures
        text::trim_start(fold(s)) == fold(text::trim_start(s)),
    decreases s.len(),
{
    if s.len() > 0 {
        lemma_fold_white(s[0]);
        let t = s.subrange(1, s.len() as int);
        lemma_fold_trim_start(t);
        assert(fold(s).subrange(1, s.len() as int) =~= fold(t));
    }
}

/// Folding the case leaves the white space at the end where it is.
proof fn lemma_fold_trim_end(s: Seq<char>)
    ensures
        text::trim_end(fold(s)) == fold(text::trim_end(s)),
    decreases s.len(),
{
    if s.len() > 0 {
        lemma_fold_white(s[s.len() - 1]);
        let t = s.subrange(0, s.len() - 1);
        lemma_fold_trim_end(t);
        assert(fold(s).subrange(0, s.len() - 1) =~= fold(t));
    }
}

/// Folding the case leaves words as long as they are.
proof fn lemma_fold_word_len(s: Seq<char>)
    ensures
        text::word_len(fold(s)) == text::word_len(s),
        0 <= text::word_len(s) <= s.len(),
        s.len() > 0 && !text::is_white(s[0]) ==> text::word_len(s) >= 1,
    decreases s.len(),
{
    if s.len() > 0 {
        lemma_fold_white(s[0]);
        let t = s.subrange(1, s.len() as int);
        lemma_fold_word_len(t);
        assert(fold(s).subrange(1, s.len() as int) =~= fold(t));
    }
}

/// Words with their case folded.
spec fn fold_all(v: Seq<Seq<char>>) -> Seq<Seq<char>> {
    v.map_values(|w: Seq<char>| fold(w))
}

/// Folding the case goes word by word.
proof fn lemma_fold_words(s: Seq<char>)
    ensures
        text::words(fold(s)) == fold_all(text::words(s)),
    decreases s.len(),
{
    let t = text::trim_start(s);
    lemma_fold_trim_start(s);
    text::lemma_trim_start_len(s);
    lemma_fold_word_len(t);
    if t.len() == 0 {
        assert(fold(t).len() == 0);
        assert(text::words(fold(s)) =~= fold_all(text::words(s)));
    } else {
        let k = text::word_len(t);
        let rest = t.subrange(k, t.len() as int);
        lemma_fold_words(rest);
        assert(fold(t).subrange(0, k) =~= fold(t.subrange(0, k)));
        assert(fold(t).subrange(k, t.len() as int) =~= fold(rest));
        assert(text::words(fold(s)) =~= fold_all(text::words(s)));
    }
}

/// Folding the case goes through a list of words.
proof fn lemma_fold_join(v: Seq<Seq<char>>)
    ensures
        text::join(fold_all(v), " "@) == fold(text::join(v, " "@)),
    decreases v.len(),
{
    reveal_strlit(" ");
    if v.len() == 0 {
        assert(text::join(fold_all(v), " "@) =~= fold(text::join(v, " "@)));
    } else if v.len() > 1 {
        let front = v.drop_last();
        lemma_fold_join(front);
        assert(fold_all(v).drop_last() =~= fold_all(front));
        let joined = text::join(front, " "@);
        assert(fold(" "@) =~= " "@);
        assert(fold(joined + " "@ + v.last()) =~= fold(joined) + fold(" "@) + fold(v.last()));
    }
}

/// Company names are matched without regard to case: inputs that differ in nothing
/// else stand for the same company.
pub proof fn law_case_of_a_name_does_not_matter(a: Seq<char>, b: Seq<char>)
    requires
        fold(a) == fold(b),
    ensures
        company_symbol(a) == company_symbol(b),
{
    lemma_fold_symbol(a);
    lemma_fold_symbol(b);
}

/// Folding the case first changes nothing.
proof fn lemma_fold_symbol(s: Seq<char>)
    ensures
        company_symbol(s) == known(single_spaced(text::trim(fold(s)))),
{
    lemma_fold_trim_start(s);
    lemma_fold_trim_end(text::trim_start(s));
    lemma_fold_words(text::trim(s));
    lemma_fold_join(text::words(text::trim(s)));
}

/// The exchange that is meant comes first, and no symbol is tried twice.
pub proof fn law_symbols_are_tried_once(resolved: Seq<char>, i: int, j: int)
    requires
        0 <= i < j < symbols(resolved).len(),
    ensures
        symbols(resolved)[0] == root_of(resolved) + "."@ + meant_exchange(resolved),
        symbols(resolved)[i] != symbols(resolved)[j],
{
    let meant = meant_exchange(resolved);
    let list = exchanges(meant);
    reveal_strlit("PA");
    reveal_strlit("L");
    reveal_strlit("DE");
    reveal_strlit("MI");
    reveal_strlit("US");
    assert("PA"@[0] != "DE"@[0] && "PA"@[0] != "MI"@[0] && "PA"@[0] != "US"@[0]);
    assert("DE"@[0] != "MI"@[0] && "DE"@[0] != "US"@[0] && "MI"@[0] != "US"@[0]);
    assert(list[i] != list[j]);
    let front = root_of(resolved) + "."@;
    let a = front + list[i];
    let b = front + list[j];
    assert(a.skip(front.len() as int) == list[i]);
    assert(b.skip(front.len() as int) == list[j]);
}

/// What a lookup comes to when the requests end as `results` say.
pub open spec fn run(v: LookupView, results: Seq<Result<Seq<char>, ErrorView>>, k: int) -> NextView
    decreases results.len() - k,
{
    let (w, n) = answered(v, results[k]);
    if n is Get && 0 <= k < results.len() - 1 {
        run(w, results, k + 1)
    } else {
        n
    }
}

/// The first symbol that has data wins, whatever went wrong before.
pub proof fn law_first_symbol_with_data_wins(
    v: LookupView,
    results: Seq<Result<Seq<char>, ErrorView>>,
    k: int,
    hit: int,
)
    requires
        v.at == k,
        0 <= k <= hit < results.len(),
        results.len() <= v.symbols.len(),
        results[hit] is Ok && !lacks_data(results[hit]->Ok_0),
        forall|i: int|
            k <= i < hit ==> (#[trigger] results[i] is Err || lacks_data(results[i]->Ok_0)),
    ensures
        run(v, results, k) == NextView::Done(Ok((results[hit]->Ok_0, v.symbols[hit]))),
    decreases hit - k,
{
    if k < hit {
        let (w, n) = answered(v, results[k]);
        law_first_symbol_with_data_wins(w, results, k + 1, hit);
    }
}

/// The symbol, the exchange, the prices, the volume and the time of a quote are told as
/// they are, each under its own name; the price is the last one, and what the quote lacks
/// is told as nothing.
pub proof fn law_quote_is_told(
    q: QuoteView,
    open: JsonView,
    high: JsonView,
    low: JsonView,
    close: JsonView,
    data: JsonView,
    tried: Seq<Seq<char>>,
    fetched_at: Seq<char>,
)
    ensures
        ({
            let d = quote_data(q, open, high, low, close);
            &&& json::field(d, "ticker"@) == Some(JsonView::Str(q.ticker))
            &&& json::field(d, "exchange"@) == Some(JsonView::Str(q.exchange))
            &&& q.close is Some ==> json::field(d, "price"@) == Some(close)
            &&& q.close is None ==> json::field(d, "price"@) == Some(JsonView::Null)
            &&& q.open is Some ==> json::field(d, "open"@) == Some(open)
            &&& q.open is None ==> json::field(d, "open"@) == Some(JsonView::Null)
            &&& q.high is Some ==> json::field(d, "high"@) == Some(high)
            &&& q.high is None ==> json::field(d, "high"@) == Some(JsonView::Null)
            &&& q.low is Some ==> json::field(d, "low"@) == Some(low)
            &&& q.low is None ==> json::field(d, "low"@) == Some(JsonView::Null)
            &&& q.close is Some ==> json::field(d, "close_prev"@) == Some(close)
            &&& q.close is None ==> json::field(d, "close_prev"@) == Some(JsonView::Null)
            &&& q.volume is Some ==> json::field(d, "volume"@) == Some(
                JsonView::Num(NumView::Int(q.volume->0)),
            )
            &&& q.volume is None ==> json::field(d, "volume"@) == Some(JsonView::Null)
            &&& json::field(d, "as_of"@) == Some(JsonView::Str(q.date))
            &&& json::field(d, "as_of_time"@) == Some(JsonView::Str(q.time))
        }),
        ({
            let a = answer_data(data, tried, fetched_at);
            let list = json::field(a, "tried"@);
            &&& json::field(a, "ok"@) == Some(JsonView::Bool(true))
            &&& json::field(a, "data"@) == Some(data)
            &&& json::field(a, "source"@) == Some(JsonView::Str("stooq"@))
            &&& json::field(a, "fetched_at"@) == Some(JsonView::Str(fetched_at))
            &&& list is Some && list->0 is Array && list->0->Array_0.len() == tried.len()
            &&& forall|i: int|
                0 <= i < tried.len() ==> #[trigger] list->0->Array_0[i] == JsonView::Str(tried[i])
        }),
{
    reveal_strlit("ticker");
    reveal_strlit("exchange");
    reveal_strlit("price");
    reveal_strlit("open");
    reveal_strlit("high");
    reveal_strlit("low");
    reveal_strlit("close_prev");
    reveal_strlit("volume");
    reveal_strlit("as_of");
    reveal_strlit("as_of_time");
    reveal_strlit("ok");
    reveal_strlit("data");
    reveal_strlit("source");
    reveal_strlit("tried");
    reveal_strlit("fetched_at");
    assert("ticker"@.len() == 6);
    assert("exchange"@.len() == 8);
    assert("price"@.len() == 5);
    assert("open"@.len() == 4);
    assert("high"@.len() == 4);
    assert("low"@.len() == 3);
    assert("close_prev"@.len() == 10);
    assert("volume"@.len() == 6);
    assert("as_of"@.len() == 5);
    assert("as_of_time"@.len() == 10);
    assert("ticker"@[0] == 't');
    assert("volume"@[0] == 'v');
    assert("price"@[0] == 'p');
    assert("as_of"@[0] == 'a');
    assert("open"@[0] == 'o');
    assert("high"@[0] == 'h');
    assert("close_prev"@[0] == 'c');
    assert("as_of_time"@[0] == 'a');
    assert("ok"@.len() == 2);
    assert("data"@.len() == 4);
    assert("source"@.len() == 6);
    assert("tried"@.len() == 5);
    assert("fetched_at"@.len() == 10);
}

/// A value is read from the column of its own name.
pub proof fn law_column_is_found_by_name(
    heads: Seq<Seq<char>>,
    values: Seq<Seq<char>>,
    name: Seq<char>,
    i: int,
)
    requires
        heads.len() <= values.len(),
        0 <= i < heads.len(),
        heads[i] == name,
        forall|j: int| i < j < heads.len() ==> #[trigger] heads[j] != name,
    ensures
        column(heads, values, name) == Some(values[i]),
    decreases heads.len(),
{
    if i < heads.len() - 1 {
        assert(heads[heads.len() - 1] != name);
        law_column_is_found_by_name(heads.drop_last(), values, name, i);
    }
}

/// A column that is not there has no value.
pub proof fn law_absent_column_has_no_value(
    heads: Seq<Seq<char>>,
    values: Seq<Seq<char>>,
    name: Seq<char>,
)
    requires
        forall|j: int| 0 <= j < heads.len() ==> #[trigger] heads[j] != name,
    ensures
        column(heads, values, name) is None,
    decreases heads.len(),
{
    if heads.len() > 0 {
        assert(heads[heads.len() - 1] != name);
        law_absent_column_has_no_value(heads.drop_last(), values, name);
    }
}

/// Each part of a quote comes from the column of its own name; a dash or nothing in it
/// means that it is missing.
pub proof fn law_quote_is_read_by_column(
    heads: Seq<Seq<char>>,
    values: Seq<Seq<char>>,
    requested: Seq<char>,
)
    ensures
        ({
            let q = quote_in(heads, values, requested);
            &&& shows_cell(column(heads, values, "Open"@), q.open)
            &&& shows_cell(column(heads, values, "High"@), q.high)
            &&& shows_cell(column(heads, values, "Low"@), q.low)
            &&& shows_cell(column(heads, values, "Close"@), q.close)
            &&& column(heads, values, "Symbol"@) is Some ==> q.ticker == column(
                heads,
                values,
                "Symbol"@,
            )->0
            &&& column(heads, values, "Symbol"@) is None ==> q.ticker == requested
            &&& column(heads, values, "Date"@) is Some ==> q.date == column(
                heads,
                values,
                "Date"@,
            )->0
            &&& column(heads, values, "Time"@) is Some ==> q.time == column(
                heads,
                values,
                "Time"@,
            )->0
            &&& column(heads, values, "Date"@) is None ==> q.date.len() == 0
            &&& column(heads, values, "Time"@) is None ==> q.time.len() == 0
            &&& forall|n: i64|
                column(heads, values, "Volume"@) == Some(#[trigger] text::decimal(n as int))
                    ==> q.volume == Some(n as int)
            &&& column(heads, values, "Volume"@) is None ==> q.volume is None
            &&& suffix_of(q.ticker) is Some ==> q.exchange == suffix_of(q.ticker)->0
            &&& suffix_of(q.ticker) is None ==> q.exchange.len() == 0
        }),
{
    reveal_strlit("-");
    let q = quote_in(heads, values, requested);
    assert forall|n: i64|
        column(heads, values, "Volume"@) == Some(#[trigger] text::decimal(n as int)) implies q.volume
        == Some(n as int) by {
        text::law_integers_are_read_back(n);
        text::law_numbers_are_digits(if n < 0 {
            (-n) as nat
        } else {
            n as nat
        });
        let s = text::decimal(n as int);
        assert("-"@.len() == 1 && "-"@[0] == '-');
        if n >= 0 {
            assert(s[0] != '-');
        } else {
            assert(s.len() > 1);
        }
    }
}

/// A cell is shown as it is, unless it is empty or a dash.
pub open spec fn shows_cell(cell: Option<Seq<char>>, shown: Option<Seq<char>>) -> bool {
    &&& cell is None ==> shown is None
    &&& cell is Some && (cell->0.len() == 0 || cell->0 == "-"@) ==> shown is None
    &&& cell is Some && cell->0.len() > 0 && cell->0 != "-"@ ==> shown == cell
}

/// A table of quotes is taken exactly when it has a row of names and one row of as many
/// values; the cells are what stands between commas, without outer white space.
pub proof fn law_which_tables_are_taken(body: Seq<char>, requested: Seq<char>)
    ensures
        ({
            let rows = text::lines(text::trim(body));
            let heads = text::split(rows[0], ',');
            let values = text::split(rows[1], ',');
            &&& quote_of(body, requested) is Ok <==> text::trim(body).len() > 0 && rows.len() == 2
                && heads.len() == values.len()
            &&& quote_of(body, requested) is Ok ==> quote_of(body, requested)->Ok_0 == quote_in(
                heads.map_values(|c: Seq<char>| text::trim(c)),
                values.map_values(|c: Seq<char>| text::trim(c)),
                requested,
            )
            &&& quote_of(body, requested) is Err ==> quote_of(body, requested)->Err_0
                is AgentFailed
        }),
{
}

/// A symbol is written in capital letters and belongs to an exchange: the one it names,
/// or the American one. A company that is known by name has its own symbol.
pub proof fn law_symbol_has_an_exchange(raw: Seq<char>)
    ensures
        company_symbol(raw) is Some ==> symbol_of(raw) == company_symbol(raw)->0,
        company_symbol(raw) is None && text::contains(text::upper(text::trim(raw)), "."@)
            ==> symbol_of(raw) == text::upper(text::trim(raw)),
        company_symbol(raw) is None && !text::contains(text::upper(text::trim(raw)), "."@)
            ==> symbol_of(raw) == text::upper(text::trim(raw)) + ".US"@,
        company_symbol(raw) == known(fold(text::join(text::words(text::trim(raw)), " "@))),
{
}

/// A symbol without data on the exchange that was meant is tried on the others: Paris,
/// London, Frankfurt, Milan, New York, in this order.
pub proof fn law_exchanges_are_tried_in_order(meant: Seq<char>)
    ensures
        exchanges(meant)[0] == meant,
        meant != "PA"@ && meant != "L"@ && meant != "DE"@ && meant != "MI"@ && meant != "US"@
            ==> exchanges(meant) == seq![meant, "PA"@, "L"@, "DE"@, "MI"@, "US"@],
        exchanges("US"@) == seq!["US"@, "PA"@, "L"@, "DE"@, "MI"@],
        exchanges("PA"@) == seq!["PA"@, "L"@, "DE"@, "MI"@, "US"@],
        forall|r: Seq<char>, i: int|
            0 <= i < exchanges(meant_exchange(r)).len() ==> #[trigger] symbols(r)[i] == root_of(r)
                + "."@ + exchanges(meant_exchange(r))[i],
        forall|r: Seq<char>| suffix_of(r) is None ==> #[trigger] meant_exchange(r) == "US"@,
        forall|r: Seq<char>|
            suffix_of(r) is Some ==> #[trigger] meant_exchange(r) == text::upper(suffix_of(r)->0),
{
    reveal_strlit("PA");
    reveal_strlit("L");
    reveal_strlit("DE");
    reveal_strlit("MI");
    reveal_strlit("US");
    assert("PA"@.len() == 2);
    assert("L"@.len() == 1);
    assert("DE"@.len() == 2);
    assert("MI"@.len() == 2);
    assert("US"@.len() == 2);
    assert("PA"@[0] == 'P');
    assert("DE"@[0] == 'D');
    assert("MI"@[0] == 'M');
    assert("US"@[0] == 'U');
    if meant != "PA"@ && meant != "L"@ && meant != "DE"@ && meant != "MI"@ && meant != "US"@ {
        assert(exchanges(meant) =~= seq![meant, "PA"@, "L"@, "DE"@, "MI"@, "US"@]);
    }
    assert(exchanges("US"@) =~= seq!["US"@, "PA"@, "L"@, "DE"@, "MI"@]);
    assert(exchanges("PA"@) =~= seq!["PA"@, "L"@, "DE"@, "MI"@, "US"@]);
}

/// The suffix of a symbol is what follows its last point, and its root what precedes the
/// first.
pub proof fn law_suffix_follows_the_point(a: Seq<char>, x: Seq<char>)
    requires
        forall|i: int| 0 <= i < a.len() ==> #[trigger] a[i] != '.',
        forall|i: int| 0 <= i < x.len() ==> #[trigger] x[i] != '.',
    ensures
        suffix_of(a + seq!['.'] + x) == Some(x),
        root_of(a + seq!['.'] + x) == a,
        suffix_of(a) is None,
        root_of(a) == a,
{
    lemma_last_point(a, x);
    lemma_no_point(a);
    let s = a + seq!['.'] + x;
    assert(s.skip(a.len() as int + 1) =~= x);
    text::lemma_index_of(s, '.', 0);
    let i = text::index_of(s, '.', 0);
    assert(s[a.len() as int] == '.');
    if i < a.len() {
        assert(s[i] == a[i]);
    }
    assert(i == a.len());
    assert(s.take(i) =~= a);
    text::lemma_index_of(a, '.', 0);
    let k = text::index_of(a, '.', 0);
    if k < a.len() {
        assert(a[k] == '.');
    }
    assert(a.take(a.len() as int) =~= a);
}

proof fn lemma_no_point(a: Seq<char>)
    requires
        forall|i: int| 0 <= i < a.len() ==> #[trigger] a[i] != '.',
    ensures
        last_index_of(a, '.') == -1,
    decreases a.len(),
{
    if a.len() > 0 {
        assert(a[a.len() - 1] != '.');
        lemma_no_point(a.drop_last());
    }
}

proof fn lemma_last_point(a: Seq<char>, x: Seq<char>)
    requires
        forall|i: int| 0 <= i < x.len() ==> #[trigger] x[i] != '.',
    ensures
        last_index_of(a + seq!['.'] + x, '.') == a.len(),
    decreases x.len(),
{
    let s = a + seq!['.'] + x;
    if x.len() > 0 {
        assert(s.last() == x[x.len() - 1]);
        assert(s.drop_last() =~= a + seq!['.'] + x.drop_last());
        lemma_last_point(a, x.drop_last());
    } else {
        assert(s.last() == '.');
    }
}

/// Which tickers are taken: texts that are not blank, short enough, and made of letters,
/// digits and a few signs; without outer white space.
pub proof fn law_which_tickers_are_taken(v: JsonView, raw: Seq<char>)
    requires
        v is Object,
        json::field(v, "ticker"@) == Some(JsonView::Str(raw)),
    ensures
        ticker_of(v) is Ok <==> {
            let t = text::trim(raw);
            &&& 0 < t.len()
            &&& text::utf8(t).len() <= 40
            &&& forall|i: int|
                0 <= i < t.len() ==> {
                    let c = #[trigger] t[i];
                    '0' <= c <= '9' || 'A' <= c <= 'Z' || 'a' <= c <= 'z' || c == ' ' || c == '.'
                        || c == '-' || c == '\'' || c == '/'
                }
        },
        ticker_of(v) is Ok ==> ticker_of(v)->Ok_0 == text::trim(raw),
        ticker_of(v) is Err ==> ticker_of(v)->Err_0 is InvalidArguments,
{
    lemma_first_bad(text::trim(raw), 0);
}

proof fn lemma_first_bad(s: Seq<char>, i: int)
    requires
        0 <= i <= s.len(),
    ensures
        i <= first_bad(s, i) <= s.len(),
        first_bad(s, i) < s.len() ==> !ticker_char(s[first_bad(s, i)]),
        forall|j: int| i <= j < first_bad(s, i) ==> ticker_char(#[trigger] s[j]),
    decreases s.len() - i,
{
    if i < s.len() && ticker_char(s[i]) {
        lemma_first_bad(s, i + 1);
    }
}

/// Where a quote is asked for, and what an answer without a table is.
pub proof fn law_where_quotes_come_from(symbol: Seq<char>, body: Seq<char>, o: Outcome)
    ensures
        quote_url(symbol) == "https://stooq.com/q/l/?s="@ + upstream::encoded(
            text::utf8(symbol),
            false,
        ) + "&f=sd2t2ohlcv&h&e=csv"@,
        lacks_data(body) <==> !text::starts_with(text::trim(body), "Symbol,"@),
        o is Body && o->Body_0@.len() <= 16384 && vstd::utf8::valid_utf8(o->Body_0@) ==> csv_of(o)
            == Ok::<_, ErrorView>(vstd::utf8::decode_utf8(o->Body_0@)),
        o is Body && (o->Body_0@.len() > 16384 || !vstd::utf8::valid_utf8(o->Body_0@)) ==> csv_of(o)
            is Err,
        !(o is Body) ==> csv_of(o) is Err,
{
}

/// What follows an answer: one with a table ends the search with that table and its
/// symbol; after any other the next symbol is asked for, and after the last the search
/// ends with the last error, or with the symbols that were tried.
pub proof fn law_search_goes_on_until_a_table(v: LookupView, r: Result<Seq<char>, ErrorView>)
    requires
        0 <= v.at < v.symbols.len(),
    ensures
        ({
            let n = answered(v, r).1;
            let w = answered(v, r).0;
            let hit = r is Ok && text::starts_with(text::trim(r->Ok_0), "Symbol,"@);
            &&& hit ==> n == NextView::Done(Ok((r->Ok_0, v.symbols[v.at]))) && w == v
            &&& !hit ==> w.at == v.at + 1 && w.symbols == v.symbols
            &&& !hit && v.at + 1 < v.symbols.len() ==> n == NextView::Get(
                quote_url(v.symbols[v.at + 1]),
            )
            &&& r is Err && v.at + 1 >= v.symbols.len() ==> n == NextView::Done(
                Err::<(Seq<char>, Seq<char>), _>(r->Err_0),
            )
            &&& !hit && r is Ok && v.at + 1 >= v.symbols.len() && v.last_error is Some ==> n
                == NextView::Done(Err::<(Seq<char>, Seq<char>), _>(v.last_error->0))
            &&& !hit && r is Ok && v.at + 1 >= v.symbols.len() && v.last_error is None ==> n
                == NextView::Done(
                Err::<(Seq<char>, Seq<char>), _>(
                    ErrorView::AgentFailed(
                        "no data for ticker (Stooq returned no data for any of: "@ + text::join(
                            v.symbols,
                            ", "@,
                        )
                            + ". Try an explicit ticker like `ATO.PA` for Euronext Paris, `MC.PA` for LVMH, etc.)"@,
                    ),
                ),
            )
        }),
{
}

/// The names of companies stand for their symbols.
pub proof fn law_companies_have_their_symbols()
    ensures
        known("atos"@) == Some("ATO.PA"@),
        known("atos origin"@) == Some("ATO.PA"@),
        known("lvmh"@) == Some("MC.PA"@),
        known("lvmh moet hennessy"@) == Some("MC.PA"@),
        known("moet hennessy"@) == Some("MC.PA"@),
        known("airbus"@) == Some("AIR.PA"@),
        known("airbus group"@) == Some("AIR.PA"@),
        known("bnp"@) == Some("BNP.PA"@),
        known("bnp paribas"@) == Some("BNP.PA"@),
        known("sanofi"@) == Some("SAN.PA"@),
        known("orange"@) == Some("ORA.PA"@),
        known("capgemini"@) == Some("CAP.PA"@),
        known("societe generale"@) == Some("GLE.PA"@),
        known("société générale"@) == Some("GLE.PA"@),
        known("sg"@) == Some("GLE.PA"@),
        known("axa"@) == Some("CS.PA"@),
        known("total"@) == Some("TTE.PA"@),
        known("totalenergies"@) == Some("TTE.PA"@),
        known("renault"@) == Some("RNO.PA"@),
        known("stellantis"@) == Some("STLA.PA"@),
        known("thales"@) == Some("HO.PA"@),
        known("schneider"@) == Some("SU.PA"@),
        known("schneider electric"@) == Some("SU.PA"@),
        known("engie"@) == Some("ENGI.PA"@),
        known("vivendi"@) == Some("VIE.PA"@),
        known("veolia"@) == Some("VIE.PA"@),
        known("danone"@) == Some("BN.PA"@),
        known("l'oreal"@) == Some("OR.PA"@),
        known("loreal"@) == Some("OR.PA"@),
        known("l'oréal"@) == Some("OR.PA"@),
        known("oreal"@) == Some("OR.PA"@),
        known("publicis"@) == Some("PUB.PA"@),
        known("pernod ricard"@) == Some("RI.PA"@),
        known("pernod-ricard"@) == Some("RI.PA"@),
        known("pernod"@) == Some("RI.PA"@),
        known("carrefour"@) == Some("CA.PA"@),
        known("credit agricole"@) == Some("ACA.PA"@),
        known("bouygues"@) == Some("EN.PA"@),
        known("michelin"@) == Some("ML.PA"@),
        known("kering"@) == Some("KER.PA"@),
        known("hermes"@) == Some("RMS.PA"@),
        known("hermès"@) == Some("RMS.PA"@),
        known("dassault systemes"@) == Some("DSY.PA"@),
        known("dassault systémes"@) == Some("DSY.PA"@),
        known("dassault"@) == Some("AM.PA"@),
        known("saint gobain"@) == Some("SGO.PA"@),
        known("saint-gobain"@) == Some("SGO.PA"@),
        known("alstom"@) == Some("ALO.PA"@),
        known("edenred"@) == Some("EDEN.PA"@),
        known("siemens"@) == Some("SIE.DE"@),
        known("sap"@) == Some("SAP.DE"@),
        known("allianz"@) == Some("ALV.DE"@),
        known("volkswagen"@) == Some("VOW3.DE"@),
        known("vw"@) == Some("VOW3.DE"@),
        known("bmw"@) == Some("BMW.DE"@),
        known("basf"@) == Some("BAS.DE"@),
        known("shell"@) == Some("SHEL.L"@),
        known("bp"@) == Some("BP.L"@),
        known("astrazeneca"@) == Some("AZN.L"@),
        known("astra zeneca"@) == Some("AZN.L"@),
        known("unilever"@) == Some("ULVR.L"@),
        known("hsbc"@) == Some("HSBA.L"@),
        known("eni"@) == Some("ENI.MI"@),
        known("enel"@) == Some("ENEL.MI"@),
        known("intesa sanpaolo"@) == Some("ISP.MI"@),
        known("apple"@) == Some("AAPL.US"@),
        known("microsoft"@) == Some("MSFT.US"@),
        known("nvidia"@) == Some("NVDA.US"@),
        known("amazon"@) == Some("AMZN.US"@),
        known("google"@) == Some("GOOGL.US"@),
        known("alphabet"@) == Some("GOOGL.US"@),
        known("meta"@) == Some("META.US"@),
        known("tesla"@) == Some("TSLA.US"@),
        known("netflix"@) == Some("NFLX.US"@),
        known("ibm"@) == Some("IBM.US"@),
{
    reveal_strlit("atos");
    reveal_strlit("atos origin");
    reveal_strlit("lvmh");
    reveal_strlit("lvmh moet hennessy");
    reveal_strlit("moet hennessy");
    reveal_strlit("airbus");
    reveal_strlit("airbus group");
    reveal_strlit("bnp");
    reveal_strlit("bnp paribas");
    reveal_strlit("sanofi");
    reveal_strlit("orange");
    reveal_strlit("capgemini");
    reveal_strlit("societe generale");
    reveal_strlit("société générale");
    reveal_strlit("sg");
    reveal_strlit("axa");
    reveal_strlit("total");
    reveal_strlit("totalenergies");
    reveal_strlit("renault");
    reveal_strlit("stellantis");
    reveal_strlit("thales");
    reveal_strlit("schneider");
    reveal_strlit("schneider electric");
    reveal_strlit("engie");
    reveal_strlit("vivendi");
    reveal_strlit("veolia");
    reveal_strlit("danone");
    reveal_strlit("l'oreal");
    reveal_strlit("loreal");
    reveal_strlit("l'oréal");
    reveal_strlit("oreal");
    reveal_strlit("publicis");
    reveal_strlit("pernod ricard");
    reveal_strlit("pernod-ricard");
    reveal_strlit("pernod");
    reveal_strlit("carrefour");
    reveal_strlit("credit agricole");
    reveal_strlit("bouygues");
    reveal_strlit("michelin");
    reveal_strlit("kering");
    reveal_strlit("hermes");
    reveal_strlit("hermès");
    reveal_strlit("dassault systemes");
    reveal_strlit("dassault systémes");
    reveal_strlit("dassault");
    reveal_strlit("saint gobain");
    reveal_strlit("saint-gobain");
    reveal_strlit("alstom");
    reveal_strlit("edenred");
    reveal_strlit("siemens");
    reveal_strlit("sap");
    reveal_strlit("allianz");
    reveal_strlit("volkswagen");
    reveal_strlit("vw");
    reveal_strlit("bmw");
    reveal_strlit("basf");
    reveal_strlit("shell");
    reveal_strlit("bp");
    reveal_strlit("astrazeneca");
    reveal_strlit("astra zeneca");
    reveal_strlit("unilever");
    reveal_strlit("hsbc");
    reveal_strlit("eni");
    reveal_strlit("enel");
    reveal_strlit("intesa sanpaolo");
    reveal_strlit("apple");
    reveal_strlit("microsoft");
    reveal_strlit("nvidia");
    reveal_strlit("amazon");
    reveal_strlit("google");
    reveal_strlit("alphabet");
    reveal_strlit("meta");
    reveal_strlit("tesla");
    reveal_strlit("netflix");
    reveal_strlit("ibm");
    assert("atos"@.len() == 4);
    assert("atos origin"@.len() == 11);
    assert("lvmh"@.len() == 4);
    assert("lvmh moet hennessy"@.len() == 18);
    assert("moet hennessy"@.len() == 13);
    assert("airbus"@.len() == 6);
    assert("airbus group"@.len() == 12);
    assert("bnp"@.len() == 3);
    assert("bnp paribas"@.len() == 11);
    assert("sanofi"@.len() == 6);
    assert("orange"@.len() == 6);
    assert("capgemini"@.len() == 9);
    assert("societe generale"@.len() == 16);
    assert("société générale"@.len() == 16);
    assert("sg"@.len() == 2);
    assert("axa"@.len() == 3);
    assert("total"@.len() == 5);
    assert("totalenergies"@.len() == 13);
    assert("renault"@.len() == 7);
    assert("stellantis"@.len() == 10);
    assert("thales"@.len() == 6);
    assert("schneider"@.len() == 9);
    assert("schneider electric"@.len() == 18);
    assert("engie"@.len() == 5);
    assert("vivendi"@.len() == 7);
    assert("veolia"@.len() == 6);
    assert("danone"@.len() == 6);
    assert("l'oreal"@.len() == 7);
    assert("loreal"@.len() == 6);
    assert("l'oréal"@.len() == 7);
    assert("oreal"@.len() == 5);
    assert("publicis"@.len() == 8);
    assert("pernod ricard"@.len() == 13);
    assert("pernod-ricard"@.len() == 13);
    assert("pernod"@.len() == 6);
    assert("carrefour"@.len() == 9);
    assert("credit agricole"@.len() == 15);
    assert("bouygues"@.len() == 8);
    assert("michelin"@.len() == 8);
    assert("kering"@.len() == 6);
    assert("hermes"@.len() == 6);
    assert("hermès"@.len() == 6);
    assert("dassault systemes"@.len() == 17);
    assert("dassault systémes"@.len() == 17);
    assert("dassault"@.len() == 8);
    assert("saint gobain"@.len() == 12);
    assert("saint-gobain"@.len() == 12);
    assert("alstom"@.len() == 6);
    assert("edenred"@.len() == 7);
    assert("siemens"@.len() == 7);
    assert("sap"@.len() == 3);
    assert("allianz"@.len() == 7);
    assert("volkswagen"@.len() == 10);
    assert("vw"@.len() == 2);
    assert("bmw"@.len() == 3);
    assert("basf"@.len() == 4);
    assert("shell"@.len() == 5);
    assert("bp"@.len() == 2);
    assert("astrazeneca"@.len() == 11);
    assert("astra zeneca"@.len() == 12);
    assert("unilever"@.len() == 8);
    assert("hsbc"@.len() == 4);
    assert("eni"@.len() == 3);
    assert("enel"@.len() == 4);
    assert("intesa sanpaolo"@.len() == 15);
    assert("apple"@.len() == 5);
    assert("microsoft"@.len() == 9);
    assert("nvidia"@.len() == 6);
    assert("amazon"@.len() == 6);
    assert("google"@.len() == 6);
    assert("alphabet"@.len() == 8);
    assert("meta"@.len() == 4);
    assert("tesla"@.len() == 5);
    assert("netflix"@.len() == 7);
    assert("ibm"@.len() == 3);
    assert("atos"@[0] == 'a');
    assert("lvmh"@[0] == 'l');
    assert("basf"@[0] == 'b');
    assert("hsbc"@[0] == 'h');
    assert("enel"@[0] == 'e');
    assert("meta"@[0] == 'm');
    assert("atos origin"@[0] == 'a');
    assert("bnp paribas"@[0] == 'b');
    assert("atos origin"@[1] == 't');
    assert("astrazeneca"@[1] == 's');
    assert("lvmh moet hennessy"@[0] == 'l');
    assert("schneider electric"@[0] == 's');
    assert("moet hennessy"@[0] == 'm');
    assert("totalenergies"@[0] == 't');
    assert("pernod ricard"@[0] == 'p');
    assert("pernod-ricard"@[0] == 'p');
    assert("airbus"@[0] == 'a');
    assert("sanofi"@[0] == 's');
    assert("orange"@[0] == 'o');
    assert("thales"@[0] == 't');
    assert("veolia"@[0] == 'v');
    assert("danone"@[0] == 'd');
    assert("loreal"@[0] == 'l');
    assert("pernod"@[0] == 'p');
    assert("kering"@[0] == 'k');
    assert("hermes"@[0] == 'h');
    assert("hermès"@[0] == 'h');
    assert("airbus"@[1] == 'i');
    assert("alstom"@[1] == 'l');
    assert("nvidia"@[0] == 'n');
    assert("amazon"@[1] == 'm');
    assert("google"@[0] == 'g');
    assert("airbus group"@[0] == 'a');
    assert("saint gobain"@[0] == 's');
    assert("saint-gobain"@[0] == 's');
    assert("airbus group"@[1] == 'i');
    assert("astra zeneca"@[1] == 's');
    assert("bnp"@[0] == 'b');
    assert("axa"@[0] == 'a');
    assert("sap"@[0] == 's');
    assert("bnp"@[1] == 'n');
    assert("bmw"@[1] == 'm');
    assert("eni"@[0] == 'e');
    assert("ibm"@[0] == 'i');
    assert("astrazeneca"@[0] == 'a');
    assert("alstom"@[0] == 'a');
    assert("amazon"@[0] == 'a');
    assert("capgemini"@[0] == 'c');
    assert("schneider"@[0] == 's');
    assert("capgemini"@[2] == 'p');
    assert("carrefour"@[2] == 'r');
    assert("microsoft"@[0] == 'm');
    assert("societe generale"@[4] == 'e');
    assert("société générale"@[4] == 'é');
    assert("sg"@[0] == 's');
    assert("vw"@[0] == 'v');
    assert("bp"@[0] == 'b');
    assert("bmw"@[0] == 'b');
    assert("total"@[0] == 't');
    assert("engie"@[0] == 'e');
    assert("oreal"@[0] == 'o');
    assert("shell"@[0] == 's');
    assert("apple"@[0] == 'a');
    assert("total"@[1] == 'o');
    assert("tesla"@[1] == 'e');
    assert("renault"@[0] == 'r');
    assert("vivendi"@[0] == 'v');
    assert("l'oreal"@[0] == 'l');
    assert("l'oréal"@[0] == 'l');
    assert("edenred"@[0] == 'e');
    assert("siemens"@[0] == 's');
    assert("allianz"@[0] == 'a');
    assert("netflix"@[0] == 'n');
    assert("stellantis"@[0] == 's');
    assert("volkswagen"@[0] == 'v');
    assert("carrefour"@[0] == 'c');
    assert("tesla"@[0] == 't');
    assert("l'oreal"@[4] == 'e');
    assert("l'oréal"@[4] == 'é');
    assert("publicis"@[0] == 'p');
    assert("bouygues"@[0] == 'b');
    assert("michelin"@[0] == 'm');
    assert("dassault"@[0] == 'd');
    assert("unilever"@[0] == 'u');
    assert("alphabet"@[0] == 'a');
    assert("pernod ricard"@[6] == ' ');
    assert("pernod-ricard"@[6] == '-');
    assert("credit agricole"@[0] == 'c');
    assert("intesa sanpaolo"@[0] == 'i');
    assert("hermes"@[4] == 'e');
    assert("hermès"@[4] == 'è');
    assert("dassault systemes"@[13] == 'e');
    assert("dassault systémes"@[13] == 'é');
    assert("saint gobain"@[5] == ' ');
    assert("saint-gobain"@[5] == '-');
    assert("astra zeneca"@[0] == 'a');
}

/// What is said of a table that is not taken.
pub proof fn law_refused_tables_say_why(body: Seq<char>, requested: Seq<char>)
    ensures
        ({
            let b = text::trim(body);
            let rows = text::lines(b);
            let e = quote_of(body, requested)->Err_0;
            &&& b.len() == 0 ==> e == ErrorView::AgentFailed(
                "no data for ticker `"@ + requested
                    + "` (empty response — check the symbol or add an exchange suffix like `.US` or `.PA`)"@,
            )
            &&& b.len() > 0 && rows.len() == 1 && text::starts_with(b, "N/D"@) ==> e
                == ErrorView::AgentFailed(
                "no data for ticker `"@ + requested + "` (Stooq returned `N/D`)"@,
            )
            &&& b.len() > 0 && rows.len() == 1 && !text::starts_with(b, "N/D"@) ==> e
                == ErrorView::AgentFailed("CSV missing data row"@)
            &&& b.len() > 0 && rows.len() > 2 ==> e == ErrorView::AgentFailed(
                "CSV has more than 2 rows; refusing to parse"@,
            )
            &&& b.len() > 0 && rows.len() == 2 && text::split(rows[0], ',').len() != text::split(
                rows[1],
                ',',
            ).len() ==> e == ErrorView::AgentFailed(
                "CSV row width mismatch: header has "@ + text::digits(
                    text::split(rows[0], ',').len(),
                ) + " columns, data has "@ + text::digits(text::split(rows[1], ',').len()),
            )
        }),
{
}

/// What is said of a ticker that is not taken.
pub proof fn law_refused_tickers_say_why(v: JsonView, raw: Seq<char>, i: int)
    ensures
        !(v is Object) ==> ticker_of(v) == Err::<Seq<char>, _>(
            ErrorView::InvalidArguments("arguments must be a JSON object"@),
        ),
        v is Object && json::field(v, "ticker"@) is None ==> ticker_of(v) == Err::<Seq<char>, _>(
            ErrorView::InvalidArguments("`ticker` (string) is required"@),
        ),
        v is Object && json::field(v, "ticker"@) == Some(JsonView::Str(raw)) ==> {
            let t = text::trim(raw);
            &&& t.len() == 0 ==> ticker_of(v) == Err::<Seq<char>, _>(
                ErrorView::InvalidArguments("`ticker` must not be empty"@),
            )
            &&& t.len() > 0 && text::utf8(t).len() > 40 ==> ticker_of(v) == Err::<Seq<char>, _>(
                ErrorView::InvalidArguments(
                    "`ticker` must be at most 40 characters (got "@ + text::digits(
                        text::utf8(t).len(),
                    ) + ")"@,
                ),
            )
            &&& text::utf8(t).len() <= 40 && 0 <= i < t.len() && t[i] == '!' && (forall|j: int|
                0 <= j < i ==> 'a' <= #[trigger] t[j] <= 'z') ==> ticker_of(v) == Err::<
                Seq<char>,
                _,
            >(
                ErrorView::InvalidArguments(
                    "`ticker` contains an unsupported character `"@ + seq!['!']
                        + "`; allowed: letters, digits, space, `.`, `-`, `'`, `/`"@,
                ),
            )
        },
{
    lemma_first_bad(text::trim(raw), 0);
}

/// Letters are folded to small ones, those with accents too; every other character stays.
pub proof fn law_letters_are_folded(c: char)
    ensures
        'A' <= c <= 'Z' ==> fold_char(c) as int == c as int + 32,
        'a' <= c <= 'z' ==> fold_char(c) == c,
        fold_char('É') == 'é' && fold_char('È') == 'è' && fold_char('Ô') == 'ô',
        fold_char('×') == '×',
        (c as int) < 0x41 ==> fold_char(c) == c,
        c as int > 0xde ==> fold_char(c) == c,
        forall|s: Seq<char>| #[trigger] fold(s).len() == s.len(),
{
}

/// Words of a name are put a single blank apart.
pub proof fn law_words_are_put_apart(s: Seq<char>)
    ensures
        single_spaced(s) == text::join(text::words(s), " "@),
{
}

/// The model is told what argument there is: a ticker, which is required.
pub proof fn law_model_is_told_of_the_arguments()
    ensures
        ({
            let p = json::field(schema(), "properties"@)->0;
            let t = json::field(p, "ticker"@)->0;
            &&& json::field(schema(), "type"@) == Some(JsonView::Str("object"@))
            &&& json::field(schema(), "required"@) == Some(
                JsonView::Array(seq![JsonView::Str("ticker"@)]),
            )
            &&& json::field(schema(), "additionalProperties"@) == Some(JsonView::Bool(false))
            &&& json::field(t, "type"@) == Some(JsonView::Str("string"@))
            &&& json::field(t, "pattern"@) == Some(JsonView::Str(TICKER_PATTERN@))
            &&& json::field(t, "description"@) == Some(JsonView::Str(TICKER_DESCRIPTION@))
        }),
{
    reveal_strlit("type");
    reveal_strlit("properties");
    reveal_strlit("required");
    reveal_strlit("additionalProperties");
    reveal_strlit("ticker");
    reveal_strlit("pattern");
    reveal_strlit("description");
    assert("type"@.len() == 4);
    assert("properties"@.len() == 10);
    assert("required"@.len() == 8);
    assert("additionalProperties"@.len() == 20);
    assert("type"@.len() == 4);
    assert("pattern"@.len() == 7);
    assert("description"@.len() == 11);
}

/// A body of at most sixteen kibibytes that is UTF-8 is read as the text it spells; one
/// that is not UTF-8 is refused with the complaint about it.
pub proof fn law_body_is_read_as_text(o: Outcome)
    ensures
        csv_of(o) is Ok <==> o is Body && o->Body_0@.len() <= 16384 && vstd::utf8::valid_utf8(
            o->Body_0@,
        ),
        csv_of(o) is Ok ==> vstd::utf8::encode_utf8(csv_of(o)->Ok_0) == o->Body_0@,
        o is Body && o->Body_0@.len() <= 16384 && !vstd::utf8::valid_utf8(o->Body_0@) ==> csv_of(o)
            == Err::<Seq<char>, _>(
            ErrorView::AgentFailed(
                "upstream returned non-UTF-8 body: "@ + utf8_complaint(o->Body_0@),
            ),
        ),
{
    upstream::law_body_is_whole_or_refused(o, 16384);
    if csv_of(o) is Ok {
        vstd::utf8::decode_utf8_encode_utf8(o->Body_0@);
    }
}

} // verus!
