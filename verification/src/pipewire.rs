//! The decisions taken on what PipeWire reports.
//!
//! The binary under `app/` runs `pw-dump`. The headset's sink is found here
//! in the dump's text, which `serde_json` reads into [`ObjetoPw`] records.
//! The equalizer's node is found among [`NoPw`] records that the caller reads,
//! because the gains that the node reports are floats: they stay with the
//! caller, which learns here which pairs they are.
//! Identification is delegated to [`is_supported`]: matching by VID/PID alone
//! would take the S9 PRO, G9 PRO and V9, and a name prefix would take the
//! V9 PRO 2.

use vstd::prelude::*;
use vstd::string::StringExecFns;

use crate::device::{is_supported, spec_is_supported};
use crate::discovery::{after, has_prefix, str_bytes};
use crate::config::{bloco_da_banda, centros, contem, law_each_band_gets_its_gain, spec_texto, tipo_da_banda, BANDAS, NODE_NAME};
use crate::texto::{decimal, find_byte_from_to, push_decimal_u64, index_of, matches_at, parse_unsigned, spec_parse_unsigned, spec_trim, str_eq, trim_bounds};

verus! {

/// The headset's ALSA sink.
#[derive(Debug, Clone, PartialEq, Eq)]
#[non_exhaustive]
pub struct SinkDoFone {
    /// Id of the node in PipeWire.
    pub id: u32,
    /// `node.name`, which becomes the filter-chain's `target.object`.
    pub node_name: String,
}

/// Outcome of an attempt to apply a gain.
#[derive(Debug, Clone, Copy, PartialEq, Eq)]
#[non_exhaustive]
pub enum Aplicacao {
    /// Written and confirmed by reading back.
    Aplicado,
    /// Reading back did not confirm the value.
    NaoAplicado,
    /// The equalizer's node does not exist.
    SemNo,
    /// Band or gain out of range. Nothing was written.
    Recusado,
}

/// `USB`.
pub open spec fn usb_prefix() -> Seq<u8> {
    seq![85u8, 83u8, 66u8]
}

/// `from_str_radix(trim(field), 16)` into a `u16`.
pub open spec fn hex_u16(field: Seq<u8>) -> Option<int> {
    spec_parse_unsigned(spec_trim(field), 16, 0xffff)
}

/// `alsa.components` comes as `USB291d:385d`: the prefix `USB`, then
/// `VID:PID` split at the first `:`, each side hexadecimal after trimming.
pub open spec fn spec_vid_pid(b: Seq<u8>) -> Option<(u16, u16)> {
    if !has_prefix(b, usb_prefix()) {
        None
    } else {
        let rest = after(b, usb_prefix());
        let p = index_of(rest, 58);
        if p >= rest.len() {
            None
        } else {
            match (hex_u16(rest.subrange(0, p)), hex_u16(rest.subrange(p + 1, rest.len() as int))) {
                (Some(vid), Some(pid)) => Some((vid as u16, pid as u16)),
                _ => None,
            }
        }
    }
}

/// Reads VID and PID out of `alsa.components`.
pub fn vid_pid(componentes: &str) -> (r: Option<(u16, u16)>)
    ensures
        r == spec_vid_pid(str_bytes(componentes@)),
{
    let b = componentes.as_bytes();
    let n = b.len();
    let usb: [u8; 3] = [85, 83, 66];
    assert(usb@ =~= usb_prefix());
    if n < 3 || !matches_at(b, usb.as_slice(), 0) {
        return None;
    }
    let ghost rest = after(b@, usb_prefix());
    assert(rest =~= b@.subrange(3, n as int));
    let p = find_byte_from_to(b, 3, n, 58);
    if p >= n {
        return None;
    }
    assert(rest.subrange(0, p - 3) =~= b@.subrange(3, p as int));
    assert(rest.subrange(p - 3 + 1, rest.len() as int) =~= b@.subrange(p + 1, n as int));
    let (a1, e1) = trim_bounds(b, 3, p);
    let (a2, e2) = trim_bounds(b, p + 1, n);
    let vid = parse_unsigned(b, a1, e1, 16, 0xffff);
    let pid = parse_unsigned(b, a2, e2, 16, 0xffff);
    match (vid, pid) {
        (Some(vid), Some(pid)) => Some((vid as u16, pid as u16)),
        _ => None,
    }
}

/// The `info.props` of a `pw-dump` object that the search reads; each field
/// is present when it is a JSON string.
pub struct PropsPw {
    /// `media.class`.
    pub media_class: Option<String>,
    /// `alsa.components`.
    pub alsa_components: Option<String>,
    /// `alsa.card_name`.
    pub alsa_card_name: Option<String>,
    /// `node.name`.
    pub node_name: Option<String>,
}

/// A `pw-dump` object as the search reads it.
pub struct ObjetoPw {
    /// `id`, when it is a non-negative integer.
    pub id: Option<u64>,
    /// `info.props`, when present.
    pub props: Option<PropsPw>,
}

/// An optional string by its view.
pub open spec fn texto_vista(t: Option<String>) -> Option<Seq<char>> {
    match t {
        Some(t) => Some(t@),
        None => None,
    }
}

/// An object by its view: `id`, and `media.class`, `alsa.components`,
/// `alsa.card_name` and `node.name` of `info.props` when it is there.
pub open spec fn objeto_vista(o: ObjetoPw) -> (Option<u64>, Option<(Option<Seq<char>>, Option<Seq<char>>, Option<Seq<char>>, Option<Seq<char>>)>) {
    (
        o.id,
        match o.props {
            Some(p) => Some((
                texto_vista(p.media_class),
                texto_vista(p.alsa_components),
                texto_vista(p.alsa_card_name),
                texto_vista(p.node_name),
            )),
            None => None,
        },
    )
}

/// The objects that `serde_json` reads out of a `pw-dump` text, by their view,
/// in dump order (none when the text is not a JSON array).
pub uninterp spec fn spec_objetos_do_dump(dump: Seq<char>) -> Seq<(Option<u64>, Option<(Option<Seq<char>>, Option<Seq<char>>, Option<Seq<char>>, Option<Seq<char>>)>)>;

/// Parses a `pw-dump` text with `serde_json::from_str` and picks, from each
/// element of the top-level array, `id` (as `serde_json::Value::as_u64`) and
/// the four string fields of `info.props` (as `as_str`). The contract names
/// the result: the JSON grammar is `serde_json`'s and is not restated here.
#[verifier::external_body]
fn objetos_do_dump(dump: &str) -> (r: Vec<ObjetoPw>)
    ensures
        r@.map_values(|o: ObjetoPw| objeto_vista(o)) == spec_objetos_do_dump(dump@),
{
    let valor: serde_json::Value = serde_json::from_str(dump).unwrap_or_default();
    let texto = |p: &serde_json::Value, k: &str| p.get(k).and_then(serde_json::Value::as_str).map(String::from);
    let nos = valor.as_array().map_or(&[][..], |v| v.as_slice());
    nos.iter().map(|o| ObjetoPw {
        id: o.get("id").and_then(serde_json::Value::as_u64),
        props: o.get("info").and_then(|i| i.get("props")).map(|p| PropsPw {
            media_class: texto(p, "media.class"),
            alsa_components: texto(p, "alsa.components"),
            alsa_card_name: texto(p, "alsa.card_name"),
            node_name: texto(p, "node.name"),
        }),
    }).collect()
}

/// The sink an object stands for, by its view, when it is the headset's:
/// class `Audio/Sink`, `alsa.components`, `alsa.card_name` and `node.name`
/// present, ids and card name accepted by the identification rule, and an id.
pub open spec fn sink_da_vista(v: (Option<u64>, Option<(Option<Seq<char>>, Option<Seq<char>>, Option<Seq<char>>, Option<Seq<char>>)>)) -> Option<(u32, Seq<char>)> {
    match v.1 {
        Some((Some(class), Some(comp), Some(card), Some(nome))) => {
            if class == "Audio/Sink"@ {
                match spec_vid_pid(str_bytes(comp)) {
                    Some((vid, pid)) => if spec_is_supported(vid, pid, str_bytes(card)) {
                        match v.0 {
                            Some(id) => Some((id as u32, nome)),
                            None => None,
                        }
                    } else {
                        None
                    },
                    None => None,
                }
            } else {
                None
            }
        },
        _ => None,
    }
}

/// The sink an object stands for, when it is the headset's.
pub open spec fn spec_sink_de(o: ObjetoPw) -> Option<(u32, Seq<char>)> {
    sink_da_vista(objeto_vista(o))
}

/// Finds the headset's ALSA sink among the objects of a `pw-dump`: the first
/// object, in dump order, that stands for it. Objects without `info.props`
/// (Core, Client, Device) do not stop the search; the microphone of the same
/// headset, with the same `alsa.*`, does not match because of its class.
pub fn sink_entre(nos: &[ObjetoPw]) -> (r: Option<SinkDoFone>)
    ensures
        r is None <==> forall|k: int| 0 <= k < nos@.len() ==> #[trigger] spec_sink_de(nos@[k]) is None,
        r matches Some(s) ==> exists|k: int| 0 <= k < nos@.len() && #[trigger] spec_sink_de(nos@[k]) == Some((s.id, s.node_name@))
            && forall|j: int| 0 <= j < k ==> #[trigger] spec_sink_de(nos@[j]) is None,
{
    let mut i: usize = 0;
    while i < nos.len()
        invariant
            i <= nos@.len(),
            forall|j: int| 0 <= j < i ==> #[trigger] spec_sink_de(nos@[j]) is None,
        decreases nos@.len() - i,
    {
        let o = &nos[i];
        if let Some(props) = &o.props {
            if let (Some(class), Some(comp), Some(card), Some(nome)) = (&props.media_class, &props.alsa_components, &props.alsa_card_name, &props.node_name) {
                if str_eq(class.as_str(), "Audio/Sink") {
                    if let Some((vid, pid)) = vid_pid(comp.as_str()) {
                        if is_supported(vid, pid, card.as_str().as_bytes()) {
                            if let Some(id) = o.id {
                                let s = SinkDoFone { id: #[verifier::truncate] (id as u32), node_name: nome.clone() };
                                assert(spec_sink_de(nos@[i as int]) == Some((s.id, s.node_name@)));
                                return Some(s);
                            }
                        }
                    }
                }
            }
        }
        i = i + 1;
    }
    None
}

/// Finds the headset's ALSA sink in a `pw-dump` text: the first object of the
/// dump, in order, that stands for it; `None` when none does, and so for a
/// text that is not a JSON array.
pub fn achar_sink_do_fone(dump: &str) -> (r: Option<SinkDoFone>)
    ensures
        r is None <==> forall|k: int| 0 <= k < spec_objetos_do_dump(dump@).len()
            ==> #[trigger] sink_da_vista(spec_objetos_do_dump(dump@)[k]) is None,
        r matches Some(s) ==> exists|k: int| 0 <= k < spec_objetos_do_dump(dump@).len()
            && #[trigger] sink_da_vista(spec_objetos_do_dump(dump@)[k]) == Some((s.id, s.node_name@))
            && forall|j: int| 0 <= j < k ==> #[trigger] sink_da_vista(spec_objetos_do_dump(dump@)[j]) is None,
{
    let nos = objetos_do_dump(dump);
    let ghost d = spec_objetos_do_dump(dump@);
    assert(d.len() == nos@.len());
    assert forall|k: int| 0 <= k < d.len() implies #[trigger] sink_da_vista(d[k]) == spec_sink_de(nos@[k]) by {
        assert(d[k] == nos@.map_values(|o: ObjetoPw| objeto_vista(o))[k]);
    }
    let r = sink_entre(nos.as_slice());
    proof {
        if r is Some {
            let s = r->0;
            let k = choose|k: int| 0 <= k < nos@.len() && #[trigger] spec_sink_de(nos@[k]) == Some((s.id, s.node_name@))
                && forall|j: int| 0 <= j < k ==> #[trigger] spec_sink_de(nos@[j]) is None;
            assert(sink_da_vista(d[k]) == Some((s.id, s.node_name@)));
            assert forall|j: int| 0 <= j < k implies #[trigger] sink_da_vista(d[j]) is None by {
                assert(sink_da_vista(d[j]) == spec_sink_de(nos@[j]));
            }
        } else {
            assert forall|k: int| 0 <= k < d.len() implies #[trigger] sink_da_vista(d[k]) is None by {
                assert(sink_da_vista(d[k]) == spec_sink_de(nos@[k]));
            }
        }
    }
    r
}

/// `:Gain`.
pub open spec fn gain_suffix() -> Seq<u8> {
    seq![58u8, 71u8, 97u8, 105u8, 110u8]
}

/// Whether `b` ends with `s`.
pub open spec fn ends_with(b: Seq<u8>, s: Seq<u8>) -> bool {
    s.len() <= b.len() && b.subrange(b.len() - s.len(), b.len() as int) == s
}

/// One pair of a `params` list of a node's `Props`: the first element, when it
/// is a JSON string, and whether a JSON number follows it. The number itself
/// is a float and stays with the caller.
pub struct ParPw {
    /// The control's name.
    pub chave: Option<String>,
    /// Whether the second element is present and a number.
    pub numero: bool,
}

/// A `pw-dump` object as the search for the equalizer's node reads it.
pub struct NoPw {
    /// `id`, when it is a non-negative integer.
    pub id: Option<u64>,
    /// `info.props["node.name"]`, when `info.props` is there and the name is
    /// a string.
    pub node_name: Option<String>,
    /// `info.state`, when it is a string.
    pub estado: Option<String>,
    /// The pairs of every `params` list under `info.params.Props`, in order.
    pub pares: Vec<ParPw>,
}

/// The equalizer's node as found: where it stands in the dump, its id, whether
/// it is running, and which of its pairs are gains (positions in `pares`, in
/// order; a later pair with the same name overrides an earlier one).
pub struct NoAchado {
    /// Position of the object in the dump.
    pub posicao: usize,
    /// Node id, cut to 32 bits.
    pub id: u32,
    /// `info.state` is `running`. Informative, not predictive.
    pub ativo: bool,
    /// Positions of the gain controls among the node's pairs.
    pub ganhos: Vec<usize>,
}

/// A gain control: a string name ending in `:Gain`, followed by a number.
pub open spec fn e_ganho(p: ParPw) -> bool {
    p.numero && match p.chave {
        Some(k) => ends_with(str_bytes(k@), gain_suffix()),
        None => false,
    }
}

/// `r` lists, in increasing order, exactly the positions of the gain controls
/// among `pares`.
pub open spec fn sao_os_ganhos(r: Seq<usize>, pares: Seq<ParPw>) -> bool {
    &&& forall|j: int| 0 <= j < r.len() ==> r[j] < pares.len() && #[trigger] e_ganho(pares[r[j] as int])
    &&& forall|j: int, k: int| 0 <= j < k < r.len() ==> r[j] < r[k]
    &&& forall|i: int| 0 <= i < pares.len() && #[trigger] e_ganho(pares[i]) ==> r.contains(i as usize)
}

/// Our equalizer's node: named [`NODE_NAME`], with an id.
pub open spec fn e_o_no(n: NoPw) -> bool {
    n.id is Some && match n.node_name {
        Some(nome) => nome@ == NODE_NAME@,
        None => false,
    }
}

/// `info.state` is `running`.
pub open spec fn esta_rodando(n: NoPw) -> bool {
    match n.estado {
        Some(e) => e@ == "running"@,
        None => false,
    }
}

fn termina_em_gain(k: &str) -> (r: bool)
    ensures
        r == ends_with(str_bytes(k@), gain_suffix()),
{
    let b = k.as_bytes();
    let sufixo: [u8; 5] = [58, 71, 97, 105, 110];
    assert(sufixo@ =~= gain_suffix());
    if b.len() < 5 {
        return false;
    }
    matches_at(b, sufixo.as_slice(), b.len() - 5)
}

/// The positions of the gain controls among a node's pairs, in order.
pub fn chaves_de_ganho(pares: &[ParPw]) -> (r: Vec<usize>)
    ensures
        sao_os_ganhos(r@, pares@),
{
    let mut r: Vec<usize> = Vec::new();
    let mut i: usize = 0;
    while i < pares.len()
        invariant
            i <= pares@.len(),
            forall|j: int| 0 <= j < r@.len() ==> #[trigger] r@[j] < i,
            forall|j: int| 0 <= j < r@.len() ==> #[trigger] e_ganho(pares@[r@[j] as int]),
            forall|j: int, k: int| 0 <= j < k < r@.len() ==> r@[j] < r@[k],
            forall|m: int| 0 <= m < i && #[trigger] e_ganho(pares@[m]) ==> r@.contains(m as usize),
        decreases pares@.len() - i,
    {
        let p = &pares[i];
        let sim = match &p.chave {
            Some(k) => p.numero && termina_em_gain(k.as_str()),
            None => false,
        };
        assert(sim == e_ganho(pares@[i as int]));
        let ghost antes = r@;
        if sim {
            r.push(i);
            assert(r@ == antes.push(i));
            assert forall|j: int| 0 <= j < r@.len() implies #[trigger] r@[j] < i + 1 && e_ganho(pares@[r@[j] as int]) by {
                if j < antes.len() {
                    assert(r@[j] == antes[j]);
                } else {
                    assert(r@[j] == i);
                    assert(e_ganho(pares@[i as int]));
                }
            }
            assert forall|j: int, k: int| 0 <= j < k < r@.len() implies r@[j] < r@[k] by {
                if k < antes.len() {
                    assert(r@[j] == antes[j] && r@[k] == antes[k]);
                } else {
                    assert(r@[j] == antes[j]);
                }
            }
            assert forall|m: int| 0 <= m <= i && #[trigger] e_ganho(pares@[m]) implies r@.contains(m as usize) by {
                if m < i {
                    let w = choose|w: int| 0 <= w < antes.len() && antes[w] == m as usize;
                    assert(r@[w] == m as usize);
                } else {
                    assert(r@[r@.len() - 1] == i);
                }
            }
        }
        i = i + 1;
    }
    r
}

/// Finds our equalizer's node among the objects of a `pw-dump`: the first one
/// named [`NODE_NAME`] that has an id (one without an id does not stop the
/// search), with its state and the positions of its gain controls.
pub fn achar_no_do_eq(nos: &[NoPw]) -> (r: Option<NoAchado>)
    ensures
        r is None <==> forall|k: int| 0 <= k < nos@.len() ==> !#[trigger] e_o_no(nos@[k]),
        r matches Some(a) ==> a.posicao < nos@.len() && e_o_no(nos@[a.posicao as int]),
        r matches Some(a) ==> forall|j: int| 0 <= j < a.posicao ==> !#[trigger] e_o_no(nos@[j]),
        r matches Some(a) ==> nos@[a.posicao as int].id matches Some(v) && a.id == #[verifier::truncate] (v as u32),
        r matches Some(a) ==> a.ativo == esta_rodando(nos@[a.posicao as int]),
        r matches Some(a) ==> sao_os_ganhos(a.ganhos@, nos@[a.posicao as int].pares@),
{
    let mut i: usize = 0;
    while i < nos.len()
        invariant
            i <= nos@.len(),
            forall|j: int| 0 <= j < i ==> !#[trigger] e_o_no(nos@[j]),
        decreases nos@.len() - i,
    {
        let o = &nos[i];
        if let Some(nome) = &o.node_name {
            if let Some(id) = o.id {
                if str_eq(nome.as_str(), NODE_NAME) {
                    assert(e_o_no(nos@[i as int]));
                    let ativo = match &o.estado {
                        Some(e) => str_eq(e.as_str(), "running"),
                        None => false,
                    };
                    let ganhos = chaves_de_ganho(o.pares.as_slice());
                    return Some(NoAchado { posicao: i, id: #[verifier::truncate] (id as u32), ativo, ganhos });
                }
            }
        }
        i = i + 1;
    }
    None
}

/// The view of an argv.
pub open spec fn argv_view(v: Seq<String>) -> Seq<Seq<char>> {
    Seq::new(v.len(), |i: int| v[i]@)
}

/// The `pw-cli` argv that sets the gain of band `banda` (from 1) of node `no`,
/// with the gain already written as a number.
pub open spec fn spec_argumentos(no: u32, banda: usize, ganho: Seq<char>) -> Seq<Seq<char>> {
    seq![
        "s"@,
        decimal(no as nat),
        "Props"@,
        "{ params = [ \"eq_band_"@ + decimal(banda as nat) + ":Gain\" "@ + ganho + " ] }"@,
    ]
}

/// Builds the `pw-cli` argv that writes a gain, with the gain already checked
/// and written as a number (two digits after the point) by the caller.
///
/// The arguments are separate on purpose: whoever runs them passes them as
/// argv, never as a shell string, and the node is addressed by numeric id.
/// `None` for a band outside `1..=10`: refused, not clamped.
pub fn argumentos_de_pw_cli(no: u32, banda: usize, ganho: &str) -> (r: Option<Vec<String>>)
    ensures
        r is Some <==> 1 <= banda <= BANDAS,
        r matches Some(v) ==> argv_view(v@) == spec_argumentos(no, banda, ganho@),
{
    if banda < 1 || banda > BANDAS {
        return None;
    }
    let mut id = String::new();
    push_decimal_u64(&mut id, no as u64);
    let mut params = String::from_str("{ params = [ \"eq_band_");
    push_decimal_u64(&mut params, banda as u64);
    params.append(":Gain\" ");
    params.append(ganho);
    params.append(" ] }");
    let mut v: Vec<String> = Vec::new();
    v.push(String::from_str("s"));
    v.push(id);
    v.push(String::from_str("Props"));
    v.push(params);
    assert(argv_view(v@) =~= spec_argumentos(no, banda, ganho@));
    Some(v)
}

/// The live write addresses the band the configuration names: for every band
/// `banda` (from 1), the argv is `s`, the node id, `Props`, and a parameter
/// list that sets `eq_band_{banda}:Gain` to the gain given, and the generated
/// text holds the node `eq_band_{banda}` of that band's kind and centre
/// frequency.
pub proof fn law_argv_names_the_configured_band(
    no: u32,
    banda: usize,
    ganho: Seq<char>,
    ganhos: Seq<Seq<char>>,
    alvo: Seq<char>,
)
    requires
        1 <= banda <= BANDAS,
        ganhos.len() == BANDAS,
    ensures
        ({
            let nome = "eq_band_"@ + decimal(banda as nat);
            let argv = spec_argumentos(no, banda, ganho);
            &&& argv.len() == 4
            &&& argv[0] == "s"@ && argv[1] == decimal(no as nat) && argv[2] == "Props"@
            &&& argv[3] == "{ params = [ \""@ + nome + ":Gain\" "@ + ganho + " ] }"@
            &&& contem(
                spec_texto(ganhos, alvo),
                bloco_da_banda(nome, tipo_da_banda(banda - 1), centros()[banda - 1], ganhos[banda - 1]),
            )
        }),
{
    law_each_band_gets_its_gain(ganhos, alvo, banda - 1);
    reveal_strlit("{ params = [ \"eq_band_");
    reveal_strlit("{ params = [ \"");
    reveal_strlit("eq_band_");
    assert("{ params = [ \"eq_band_"@ =~= "{ params = [ \""@ + "eq_band_"@);
    let nome = "eq_band_"@ + decimal(banda as nat);
    assert(spec_argumentos(no, banda, ganho)[3] =~= "{ params = [ \""@ + nome + ":Gain\" "@ + ganho + " ] }"@);
}

} // verus!
