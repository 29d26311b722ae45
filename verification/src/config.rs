//! The filter-chain configuration of the 10-band equalizer: its constants,
//! and the checks that decide whether a text may be generated.
//!
//! The text itself carries the gains as decimal numbers and is written by the
//! binary under `app/`; what is decided on integers and strings stands here.

use vstd::prelude::*;
use vstd::string::StringExecFns;

use crate::texto::{decimal, push_decimal_u8};

verus! {

/// How many bands the equalizer has.
pub const BANDAS: usize = 10;

/// The name of the virtual sink's node. Stable and public: a UI needs it to
/// read the gains back.
pub const NODE_NAME: &'static str = "mchose_v9_eq";

/// First line of the file. It tells a file of ours from one of the user's: a
/// file we did not write is never overwritten.
pub const MARCADOR: &'static str = "# gerado por mchose-audio — nao edite a mao\n";

/// Why generation refused to produce text.
#[derive(Debug, Clone, PartialEq, Eq)]
#[non_exhaustive]
pub enum ErroConfig {
    /// A gain outside `-12..=12` dB, or NaN, or infinite.
    GanhoInvalido {
        /// Which band (from 0).
        banda: usize,
    },
    /// The target sink's name has a character that would escape the syntax.
    AlvoInvalido,
}

/// A character allowed in a target sink's name: `[A-Za-z0-9._:-]`.
pub open spec fn alvo_char(c: char) -> bool {
    ||| ('0' <= c && c <= '9')
    ||| ('a' <= c && c <= 'z')
    ||| ('A' <= c && c <= 'Z')
    ||| c == '.' || c == '_' || c == ':' || c == '-'
}

/// A target passes only when it is made entirely of `[A-Za-z0-9._:-]`.
pub open spec fn spec_alvo_aceitavel(alvo: Seq<char>) -> bool {
    alvo.len() > 0 && forall|i: int| 0 <= i < alvo.len() ==> #[trigger] alvo_char(alvo[i])
}

/// The target passes only if it is entirely `[A-Za-z0-9._:-]`.
///
/// Refuses, and does not sanitise: the name comes from the USB strings the
/// device itself declares, and `x" } plugin = "/tmp/e.so` would close the
/// SPA-JSON block and add a directive to a file PipeWire loads at login.
pub fn alvo_aceitavel(alvo: &str) -> (r: bool)
    ensures
        r == spec_alvo_aceitavel(alvo@),
{
    if alvo.is_empty() {
        return false;
    }
    for c in it: alvo.chars()
        invariant
            alvo@.len() > 0,
            it.seq() == alvo@,
            forall|k: int| 0 <= k < it.index() ==> #[trigger] alvo_char(alvo@[k]),
    {
        let ok = ('0' <= c && c <= '9') || ('a' <= c && c <= 'z') || ('A' <= c && c <= 'Z')
            || c == '.' || c == '_' || c == ':' || c == '-';
        if !ok {
            assert(!alvo_char(alvo@[it.index() as int]));
            return false;
        }
    }
    true
}

/// The biquad kind of a band: low shelf for the first, high shelf for the
/// last, peaking for the eight between.
pub open spec fn spec_rotulo(i: usize) -> Seq<char> {
    if i == 0 {
        "bq_lowshelf"@
    } else if i == BANDAS - 1 {
        "bq_highshelf"@
    } else {
        "bq_peaking"@
    }
}

/// The biquad kind of band `i` (from 0).
pub fn rotulo_da_banda(i: usize) -> (s: &'static str)
    ensures
        s@ == spec_rotulo(i),
{
    if i == 0 {
        "bq_lowshelf"
    } else if i == BANDAS - 1 {
        "bq_highshelf"
    } else {
        "bq_peaking"
    }
}

/// The centre frequency of band `i`, as `{:.1}` renders it: the octave series
/// 31 Hz to 16 kHz.
pub open spec fn spec_frequencia(i: int) -> Seq<char> {
    if i == 0 { "31.0"@ }
    else if i == 1 { "62.0"@ }
    else if i == 2 { "125.0"@ }
    else if i == 3 { "250.0"@ }
    else if i == 4 { "500.0"@ }
    else if i == 5 { "1000.0"@ }
    else if i == 6 { "2000.0"@ }
    else if i == 7 { "4000.0"@ }
    else if i == 8 { "8000.0"@ }
    else { "16000.0"@ }
}

/// The centre frequency of band `i` (from 0), as written in the file.
pub fn frequencia(i: usize) -> (s: &'static str)
    ensures
        s@ == spec_frequencia(i as int),
{
    if i == 0 { "31.0" }
    else if i == 1 { "62.0" }
    else if i == 2 { "125.0" }
    else if i == 3 { "250.0" }
    else if i == 4 { "500.0" }
    else if i == 5 { "1000.0" }
    else if i == 6 { "2000.0" }
    else if i == 7 { "4000.0" }
    else if i == 8 { "8000.0" }
    else { "16000.0" }
}

/// The node of band `i` (from 0) with the gain written as `ganho`.
pub open spec fn spec_no(i: int, ganho: Seq<char>) -> Seq<char> {
    "                    {\n"@
    + "                        type  = builtin\n"@
    + "                        name  = eq_band_"@ + decimal((i + 1) as nat) + "\n"@
    + "                        label = "@ + spec_rotulo(i as usize) + "\n"@
    + "                        control = { \"Freq\" = "@ + spec_frequencia(i) + " \"Q\" = 1.41 \"Gain\" = "@ + ganho + " }\n"@
    + "                    }\n"@
}

/// The nodes of the first `n` bands, in order.
pub open spec fn spec_nos(ganhos: Seq<Seq<char>>, n: int) -> Seq<char>
    decreases n,
{
    if n <= 0 {
        Seq::empty()
    } else {
        spec_nos(ganhos, n - 1) + spec_no(n - 1, ganhos[n - 1])
    }
}

/// The link from band `i` to band `i + 1` (bands counted from 1).
pub open spec fn spec_ligacao(i: int) -> Seq<char> {
    "                    { output = \"eq_band_"@ + decimal(i as nat) + ":Out\" input = \"eq_band_"@
        + decimal((i + 1) as nat) + ":In\" }\n"@
}

/// The links from band 1 up to band `n`, in order.
pub open spec fn spec_ligacoes(n: int) -> Seq<char>
    decreases n,
{
    if n <= 1 {
        Seq::empty()
    } else {
        spec_ligacoes(n - 1) + spec_ligacao(n - 1)
    }
}

/// The whole filter-chain text for gains already written as numbers and an
/// accepted target.
pub open spec fn spec_texto(ganhos: Seq<Seq<char>>, alvo: Seq<char>) -> Seq<char> {
    MARCADOR@
    + "# EQ de 10 bandas para o MCHOSE V9 PRO.\n"@
    + "context.modules = [\n"@
    + "    { name = libpipewire-module-filter-chain\n"@
    + "        args = {\n"@
    + "            node.description = \"MCHOSE V9 PRO EQ\"\n"@
    + "            media.name       = \"MCHOSE V9 PRO EQ\"\n"@
    + "            filter.graph = {\n"@
    + "                nodes = [\n"@ + spec_nos(ganhos, BANDAS as int)
    + "                ]\n"@
    + "                links = [\n"@ + spec_ligacoes(BANDAS as int)
    + "                ]\n"@
    + "            }\n"@
    + "            audio.channels = 2\n"@
    + "            audio.position = [ FL FR ]\n"@
    + "            capture.props  = { node.name = \"mchose_v9_eq\" media.class = Audio/Sink }\n"@
    + "            playback.props = { node.name = \"mchose_v9_eq_out\" node.passive = true target.object = \""@ + alvo + "\" }\n"@
    + "        }\n"@
    + "    }\n"@
    + "]\n"@
}

/// Appends the node of band `i` (from 0) to `nos`.
fn push_no(nos: &mut String, i: usize, ganho: &str)
    requires
        i < BANDAS,
    ensures
        final(nos)@ == old(nos)@ + spec_no(i as int, ganho@),
{
    let ghost antes = nos@;
    nos.append("                    {\n");
    nos.append("                        type  = builtin\n");
    nos.append("                        name  = eq_band_");
    push_decimal_u8(nos, (i + 1) as u8);
    nos.append("\n");
    nos.append("                        label = ");
    nos.append(rotulo_da_banda(i));
    nos.append("\n");
    nos.append("                        control = { \"Freq\" = ");
    nos.append(frequencia(i));
    nos.append(" \"Q\" = 1.41 \"Gain\" = ");
    nos.append(ganho);
    nos.append(" }\n");
    nos.append("                    }\n");
    assert(nos@ =~= antes + spec_no(i as int, ganho@));
}

/// Appends the link from band `j` to band `j + 1` to `ligacoes`.
fn push_ligacao(ligacoes: &mut String, j: usize)
    requires
        1 <= j < BANDAS,
    ensures
        final(ligacoes)@ == old(ligacoes)@ + spec_ligacao(j as int),
{
    let ghost antes = ligacoes@;
    ligacoes.append("                    { output = \"eq_band_");
    push_decimal_u8(ligacoes, j as u8);
    ligacoes.append(":Out\" input = \"eq_band_");
    push_decimal_u8(ligacoes, (j + 1) as u8);
    ligacoes.append(":In\" }\n");
    assert(ligacoes@ =~= antes + spec_ligacao(j as int));
}

/// Assembles the filter-chain text: ten biquads in series, the first a low
/// shelf, the last a high shelf, the eight between peaking, and the target
/// sink as `target.object`.
///
/// The gains come already written as decimal numbers (one digit after the
/// point), because checking and rendering them is floating-point work done by
/// the caller; nothing else from outside enters the text but the target, and
/// only when [`alvo_aceitavel`] accepts it.
pub fn montar(ganhos: &[String; BANDAS], alvo: &str) -> (r: Result<String, ErroConfig>)
    ensures
        r is Err <==> !spec_alvo_aceitavel(alvo@),
        r is Err ==> r == Err::<String, ErroConfig>(ErroConfig::AlvoInvalido),
        r matches Ok(t) ==> t@ == spec_texto(Seq::new(10, |i: int| ganhos@[i]@), alvo@),
{
    if !alvo_aceitavel(alvo) {
        return Err(ErroConfig::AlvoInvalido);
    }
    let ghost g = Seq::new(10, |i: int| ganhos@[i]@);
    let mut nos = String::new();
    let mut i: usize = 0;
    while i < BANDAS
        invariant
            i <= BANDAS,
            g == Seq::new(10, |k: int| ganhos@[k]@),
            nos@ == spec_nos(g, i as int),
        decreases BANDAS - i,
    {
        push_no(&mut nos, i, ganhos[i].as_str());
        assert(nos@ =~= spec_nos(g, i as int) + spec_no(i as int, g[i as int]));
        i = i + 1;
    }
    let mut ligacoes = String::new();
    let mut j: usize = 1;
    assert(ligacoes@ =~= spec_ligacoes(1));
    while j < BANDAS
        invariant
            1 <= j <= BANDAS,
            ligacoes@ == spec_ligacoes(j as int),
        decreases BANDAS - j,
    {
        push_ligacao(&mut ligacoes, j);
        assert(ligacoes@ =~= spec_ligacoes(j as int) + spec_ligacao(j as int));
        j = j + 1;
    }
    let mut t = String::from_str(MARCADOR);
    t.append("# EQ de 10 bandas para o MCHOSE V9 PRO.\n");
    t.append("context.modules = [\n");
    t.append("    { name = libpipewire-module-filter-chain\n");
    t.append("        args = {\n");
    t.append("            node.description = \"MCHOSE V9 PRO EQ\"\n");
    t.append("            media.name       = \"MCHOSE V9 PRO EQ\"\n");
    t.append("            filter.graph = {\n");
    t.append("                nodes = [\n");
    t.append(nos.as_str());
    t.append("                ]\n");
    t.append("                links = [\n");
    t.append(ligacoes.as_str());
    t.append("                ]\n");
    t.append("            }\n");
    t.append("            audio.channels = 2\n");
    t.append("            audio.position = [ FL FR ]\n");
    t.append("            capture.props  = { node.name = \"mchose_v9_eq\" media.class = Audio/Sink }\n");
    t.append("            playback.props = { node.name = \"mchose_v9_eq_out\" node.passive = true target.object = \"");
    t.append(alvo);
    t.append("\" }\n");
    t.append("        }\n");
    t.append("    }\n");
    t.append("]\n");
    assert(t@ =~= spec_texto(g, alvo@));
    Ok(t)
}

/// The playback line of the text, which points the equalizer's output at
/// the target sink.
pub open spec fn linha_de_saida(alvo: Seq<char>) -> Seq<char> {
    "            playback.props = { node.name = \"mchose_v9_eq_out\" node.passive = true target.object = \""@ + alvo + "\" }\n"@
}

/// The target enters the text as the `target.object` of the playback side:
/// without it the equalizer would follow the default sink, not the headset.
pub proof fn law_target_is_the_playback_object(ganhos: Seq<Seq<char>>, alvo: Seq<char>)
    ensures
        exists|x: Seq<char>, y: Seq<char>| spec_texto(ganhos, alvo) == x + linha_de_saida(alvo) + y,
{
    let x = MARCADOR@
    + "# EQ de 10 bandas para o MCHOSE V9 PRO.\n"@
    + "context.modules = [\n"@
    + "    { name = libpipewire-module-filter-chain\n"@
    + "        args = {\n"@
    + "            node.description = \"MCHOSE V9 PRO EQ\"\n"@
    + "            media.name       = \"MCHOSE V9 PRO EQ\"\n"@
    + "            filter.graph = {\n"@
    + "                nodes = [\n"@ + spec_nos(ganhos, BANDAS as int)
    + "                ]\n"@
    + "                links = [\n"@ + spec_ligacoes(BANDAS as int)
    + "                ]\n"@
    + "            }\n"@
    + "            audio.channels = 2\n"@
    + "            audio.position = [ FL FR ]\n"@
    + "            capture.props  = { node.name = \"mchose_v9_eq\" media.class = Audio/Sink }\n"@;
    let y = "        }\n"@ + "    }\n"@ + "]\n"@;
    assert(spec_texto(ganhos, alvo) =~= x + linha_de_saida(alvo) + y);
}

/// The text always starts with the marker: every file the crate writes can
/// be told from the user's.
pub proof fn law_text_starts_with_marker(ganhos: Seq<Seq<char>>, alvo: Seq<char>)
    ensures
        spec_texto(ganhos, alvo).subrange(0, MARCADOR@.len() as int) == MARCADOR@,
{
    let t = spec_texto(ganhos, alvo);
    let rest = t.subrange(MARCADOR@.len() as int, t.len() as int);
    assert(t =~= MARCADOR@ + rest);
    assert(t.subrange(0, MARCADOR@.len() as int) =~= MARCADOR@);
}

/// Whether `x` occurs in `t`.
pub open spec fn contem(t: Seq<char>, x: Seq<char>) -> bool {
    exists|p: int| 0 <= p && p + x.len() <= t.len() && #[trigger] t.subrange(p, p + x.len()) == x
}

/// The centre frequencies of the bands, 31 Hz to 16 kHz, as they are written.
pub open spec fn centros() -> Seq<Seq<char>> {
    seq!["31.0"@, "62.0"@, "125.0"@, "250.0"@, "500.0"@, "1000.0"@, "2000.0"@, "4000.0"@, "8000.0"@, "16000.0"@]
}

/// The lines of a band's node that carry its name, its filter kind (a low
/// shelf first, a high shelf last, peaking between) and its controls: the
/// frequency `freq` and the gain `ganho`.
pub open spec fn bloco_da_banda(nome: Seq<char>, tipo: Seq<char>, freq: Seq<char>, ganho: Seq<char>) -> Seq<char> {
    "                        name  = "@ + nome + "\n"@
    + "                        label = "@ + tipo + "\n"@
    + "                        control = { \"Freq\" = "@ + freq + " \"Q\" = 1.41 \"Gain\" = "@ + ganho + " }\n"@
}

/// The filter kind of band `k` (from 0) of ten.
pub open spec fn tipo_da_banda(k: int) -> Seq<char> {
    if k == 0 {
        "bq_lowshelf"@
    } else if k == 9 {
        "bq_highshelf"@
    } else {
        "bq_peaking"@
    }
}

proof fn lemma_contem_em(t: Seq<char>, a: Seq<char>, u: Seq<char>, b: Seq<char>, x: Seq<char>)
    requires
        t == a + u + b,
        contem(u, x),
    ensures
        contem(t, x),
{
    let p = choose|p: int| 0 <= p && p + x.len() <= u.len() && #[trigger] u.subrange(p, p + x.len()) == x;
    let q = a.len() + p;
    assert(t.subrange(q, q + x.len()) =~= u.subrange(p, p + x.len()));
}

proof fn lemma_contem_tudo(x: Seq<char>)
    ensures
        contem(x, x),
{
    let z: int = 0;
    assert(x.subrange(z, z + x.len()) =~= x);
}

proof fn lemma_nos_contem(ganhos: Seq<Seq<char>>, n: int, k: int)
    requires
        0 <= k < n,
    ensures
        contem(spec_nos(ganhos, n), spec_no(k, ganhos[k])),
    decreases n,
{
    let e = Seq::<char>::empty();
    let no = spec_no(n - 1, ganhos[n - 1]);
    if k == n - 1 {
        lemma_contem_tudo(no);
        assert(spec_nos(ganhos, n) =~= spec_nos(ganhos, n - 1) + no + e);
        lemma_contem_em(spec_nos(ganhos, n), spec_nos(ganhos, n - 1), no, e, no);
    } else {
        lemma_nos_contem(ganhos, n - 1, k);
        assert(spec_nos(ganhos, n) =~= e + spec_nos(ganhos, n - 1) + no);
        lemma_contem_em(spec_nos(ganhos, n), e, spec_nos(ganhos, n - 1), no, spec_no(k, ganhos[k]));
    }
}

/// Each band gets its own gain: for every band `k` (from 0), the generated
/// text holds the node named `eq_band_{k+1}`, of the band's filter kind, at
/// the `k`-th centre frequency, with the `k`-th gain given, in that order.
pub proof fn law_each_band_gets_its_gain(ganhos: Seq<Seq<char>>, alvo: Seq<char>, k: int)
    requires
        ganhos.len() == BANDAS,
        0 <= k < BANDAS,
    ensures
        contem(
            spec_texto(ganhos, alvo),
            bloco_da_banda("eq_band_"@ + decimal((k + 1) as nat), tipo_da_banda(k), centros()[k], ganhos[k]),
        ),
{
    let b = bloco_da_banda("eq_band_"@ + decimal((k + 1) as nat), tipo_da_banda(k), centros()[k], ganhos[k]);
    let no = spec_no(k, ganhos[k]);
    reveal_strlit("                        name  = eq_band_");
    reveal_strlit("                        name  = ");
    reveal_strlit("eq_band_");
    assert("                        name  = eq_band_"@ =~= "                        name  = "@ + "eq_band_"@);
    assert(spec_frequencia(k) == centros()[k]);
    assert(spec_rotulo(k as usize) == tipo_da_banda(k));
    let cabeca = "                    {\n"@ + "                        type  = builtin\n"@;
    let pe = "                    }\n"@;
    assert(no =~= cabeca + b + pe);
    lemma_contem_tudo(b);
    lemma_contem_em(no, cabeca, b, pe, b);
    lemma_nos_contem(ganhos, BANDAS as int, k);
    let x = MARCADOR@
    + "# EQ de 10 bandas para o MCHOSE V9 PRO.\n"@
    + "context.modules = [\n"@
    + "    { name = libpipewire-module-filter-chain\n"@
    + "        args = {\n"@
    + "            node.description = \"MCHOSE V9 PRO EQ\"\n"@
    + "            media.name       = \"MCHOSE V9 PRO EQ\"\n"@
    + "            filter.graph = {\n"@
    + "                nodes = [\n"@;
    let y = "                ]\n"@
    + "                links = [\n"@ + spec_ligacoes(BANDAS as int)
    + "                ]\n"@
    + "            }\n"@
    + "            audio.channels = 2\n"@
    + "            audio.position = [ FL FR ]\n"@
    + "            capture.props  = { node.name = \"mchose_v9_eq\" media.class = Audio/Sink }\n"@
    + linha_de_saida(alvo)
    + "        }\n"@ + "    }\n"@ + "]\n"@;
    assert(spec_texto(ganhos, alvo) =~= x + spec_nos(ganhos, BANDAS as int) + y);
    lemma_contem_em(spec_texto(ganhos, alvo), x, spec_nos(ganhos, BANDAS as int), y, no);
    assert(contem(spec_texto(ganhos, alvo), b)) by {
        let p = choose|p: int| 0 <= p && p + no.len() <= spec_texto(ganhos, alvo).len()
            && #[trigger] spec_texto(ganhos, alvo).subrange(p, p + no.len()) == no;
        let q = choose|q: int| 0 <= q && q + b.len() <= no.len() && #[trigger] no.subrange(q, q + b.len()) == b;
        let t = spec_texto(ganhos, alvo);
        assert(t.subrange(p + q, p + q + b.len()) =~= no.subrange(q, q + b.len()));
    }
}

proof fn lemma_ligacoes_contem(n: int, i: int)
    requires
        1 <= i < n,
    ensures
        contem(spec_ligacoes(n), spec_ligacao(i)),
    decreases n,
{
    let e = Seq::<char>::empty();
    let l = spec_ligacao(n - 1);
    if i == n - 1 {
        lemma_contem_tudo(l);
        assert(spec_ligacoes(n) =~= spec_ligacoes(n - 1) + l + e);
        lemma_contem_em(spec_ligacoes(n), spec_ligacoes(n - 1), l, e, l);
    } else {
        lemma_ligacoes_contem(n - 1, i);
        assert(spec_ligacoes(n) =~= e + spec_ligacoes(n - 1) + l);
        lemma_contem_em(spec_ligacoes(n), e, spec_ligacoes(n - 1), l, spec_ligacao(i));
    }
}

/// The bands are chained in series: for every band `i` from 1 to 9, the text
/// links the output of `eq_band_{i}` to the input of `eq_band_{i+1}`.
pub proof fn law_bands_are_chained_in_series(ganhos: Seq<Seq<char>>, alvo: Seq<char>, i: int)
    requires
        1 <= i < BANDAS,
    ensures
        contem(
            spec_texto(ganhos, alvo),
            "output = \"eq_band_"@ + decimal(i as nat) + ":Out\" input = \"eq_band_"@ + decimal((i + 1) as nat) + ":In\""@,
        ),
{
    let x = "output = \"eq_band_"@ + decimal(i as nat) + ":Out\" input = \"eq_band_"@ + decimal((i + 1) as nat) + ":In\""@;
    let l = spec_ligacao(i);
    reveal_strlit("                    { output = \"eq_band_");
    reveal_strlit("                    { ");
    reveal_strlit("output = \"eq_band_");
    reveal_strlit(":In\" }\n");
    reveal_strlit(":In\"");
    reveal_strlit(" }\n");
    assert("                    { output = \"eq_band_"@ =~= "                    { "@ + "output = \"eq_band_"@);
    assert(":In\" }\n"@ =~= ":In\""@ + " }\n"@);
    let a = "                    { "@;
    let b = " }\n"@;
    assert(l =~= a + x + b);
    lemma_contem_tudo(x);
    lemma_contem_em(l, a, x, b, x);
    lemma_ligacoes_contem(BANDAS as int, i);
    let pre = MARCADOR@
    + "# EQ de 10 bandas para o MCHOSE V9 PRO.\n"@
    + "context.modules = [\n"@
    + "    { name = libpipewire-module-filter-chain\n"@
    + "        args = {\n"@
    + "            node.description = \"MCHOSE V9 PRO EQ\"\n"@
    + "            media.name       = \"MCHOSE V9 PRO EQ\"\n"@
    + "            filter.graph = {\n"@
    + "                nodes = [\n"@ + spec_nos(ganhos, BANDAS as int)
    + "                ]\n"@
    + "                links = [\n"@;
    let pos = "                ]\n"@
    + "            }\n"@
    + "            audio.channels = 2\n"@
    + "            audio.position = [ FL FR ]\n"@
    + "            capture.props  = { node.name = \"mchose_v9_eq\" media.class = Audio/Sink }\n"@
    + linha_de_saida(alvo)
    + "        }\n"@ + "    }\n"@ + "]\n"@;
    let t = spec_texto(ganhos, alvo);
    let ls = spec_ligacoes(BANDAS as int);
    assert(t =~= pre + ls + pos);
    lemma_contem_em(t, pre, ls, pos, l);
    assert(contem(t, x)) by {
        let p = choose|p: int| 0 <= p && p + l.len() <= t.len() && #[trigger] t.subrange(p, p + l.len()) == l;
        let q = choose|q: int| 0 <= q && q + x.len() <= l.len() && #[trigger] l.subrange(q, q + x.len()) == x;
        assert(t.subrange(p + q, p + q + x.len()) =~= l.subrange(q, q + x.len()));
    }
}

} // verus!
