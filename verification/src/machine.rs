//! The decisions of a session with the device.
//!
//! A session lives as long as the transport lives. It opens by asking for the
//! dongle's firmware version, then the headset's, publishes `Connected` with
//! both, and writes one battery query; after that it only listens, and queries
//! again only when a consumer asks. The loop that performs the queries and
//! waits on the transport, the deadline and the query handle runs in the
//! caller; each thing that loop sees is handed to [`Sessao::on_step`] or
//! [`Sessao::on_write`], which say what to publish and what to do next.

use vstd::prelude::*;

use crate::battery::{battery_accepts, decode_battery, spec_battery_reading, spec_charge_state, BatteryReading};
use crate::firmware::{decode_firmware, firmware_accepts, FirmwareVersion};
use crate::request::{FirmwareTarget, REPORT_BATTERY};
use crate::{delimited, rejected_view};

verus! {

/// What the session publishes. Owned on purpose: consumers keep it beyond the
/// read buffer.
#[derive(Debug, Clone, PartialEq, Eq)]
#[non_exhaustive]
pub enum DeviceEvent {
    /// Dongle found. The versions are `None` when the device did not answer.
    Connected {
        /// Version of the USB receiver.
        dongle: Option<FirmwareVersion>,
        /// Version of the headset.
        headset: Option<FirmwareVersion>,
    },
    /// A valid reading.
    Battery(BatteryReading),
    /// Query sent, nothing within the battery response timeout.
    NoResponse,
    /// A packet of our channel that did not decode, with the bytes the
    /// protocol delimited.
    Rejected(Vec<u8>),
    /// The transport died. The hotplug loop takes over.
    Disconnected,
    /// No hidraw matches. Published once per absence.
    NoDevice,
    /// Opening the device returned `EACCES`: the udev rule is not installed.
    PermissionDenied {
        /// The device node that did not open (always `/dev/` and a UTF-8 name).
        path: String,
    },
}

/// The mathematical form of an event: the same variants, bytes as a sequence,
/// the path left out.
pub enum EventView {
    Connected { dongle: Option<FirmwareVersion>, headset: Option<FirmwareVersion> },
    Battery(BatteryReading),
    NoResponse,
    Rejected(Seq<u8>),
    Disconnected,
    NoDevice,
    PermissionDenied,
}

impl View for DeviceEvent {
    type V = EventView;

    open spec fn view(&self) -> EventView {
        match self {
            DeviceEvent::Connected { dongle, headset } => EventView::Connected {
                dongle: *dongle,
                headset: *headset,
            },
            DeviceEvent::Battery(r) => EventView::Battery(*r),
            DeviceEvent::NoResponse => EventView::NoResponse,
            DeviceEvent::Rejected(bytes) => EventView::Rejected(bytes@),
            DeviceEvent::Disconnected => EventView::Disconnected,
            DeviceEvent::NoDevice => EventView::NoDevice,
            DeviceEvent::PermissionDenied { .. } => EventView::PermissionDenied,
        }
    }
}

/// The view of an optional event.
pub open spec fn event_view(e: Option<DeviceEvent>) -> Option<EventView> {
    match e {
        Some(e) => Some(e@),
        None => None,
    }
}

/// Reads the version out of a firmware feature answer of `n` bytes. A missing
/// or malformed answer is `None`: absent firmware does not bring the session
/// down.
pub fn versao_do_feature(buf: &[u8], n: usize) -> (r: Option<FirmwareVersion>)
    ensures
        r is Some <==> (n <= buf@.len() && firmware_accepts(buf@.subrange(0, n as int))),
        r matches Some(v) ==> v.bytes@ == buf@.subrange(2, 6),
{
    if n > buf.len() {
        return None;
    }
    let pacote = vstd::slice::slice_subrange(buf, 0, n);
    match decode_firmware(pacote) {
        Ok(v) => {
            assert(pacote@.subrange(2, 6) =~= buf@.subrange(2, 6));
            Some(v)
        },
        Err(_) => None,
    }
}

/// What the session's waiting, or a firmware query, produced.
#[derive(Debug, Clone, Copy, PartialEq, Eq)]
pub enum Passo {
    /// A read finished with this many bytes in the read buffer.
    Read(usize),
    /// The battery response timeout ran out.
    Deadline,
    /// The consumer asked for a reading.
    Request,
    /// Every query handle was dropped: there will never be a request again.
    RequestsClosed,
    /// The transport failed.
    Died,
    /// The answer to a firmware query: the version, or `None` when the device
    /// did not answer.
    Firmware(Option<FirmwareVersion>),
}

/// What the caller does after a step.
#[derive(Debug, Clone, Copy, PartialEq, Eq)]
pub enum Acao {
    /// Go on waiting.
    Continue,
    /// Ask for this firmware version, then report it as [`Passo::Firmware`].
    QueryFirmware(FirmwareTarget),
    /// Write the battery query, then report the result to [`Sessao::on_write`].
    WriteBatteryRequest,
    /// The session is over.
    End,
}

/// Where a session stands.
#[derive(Debug, Clone, Copy, PartialEq, Eq)]
pub enum Fase {
    /// The dongle's firmware version is being asked for.
    Dongle,
    /// The headset's firmware version is being asked for; the dongle's answer
    /// is kept until both are published together.
    Fone(Option<FirmwareVersion>),
    /// `Connected` went out: the session listens.
    Aberta,
}

/// The state of a session between two steps.
#[derive(Debug, Clone, Copy, PartialEq, Eq)]
pub struct Sessao {
    /// A battery query is outstanding, so the response timeout runs.
    pub awaiting: bool,
    /// A query handle is still alive, so requests are listened for.
    pub has_requester: bool,
    /// Opening or open.
    pub fase: Fase,
}

/// What a read of `n` bytes publishes: a reading, a rejection of our channel,
/// or nothing (foreign traffic, or `n` beyond the buffer).
pub open spec fn spec_read_event(buf: Seq<u8>, n: int) -> Option<EventView> {
    if n > buf.len() {
        None
    } else {
        let pacote = buf.subrange(0, n);
        if battery_accepts(pacote) {
            Some(EventView::Battery(spec_battery_reading(pacote)))
        } else {
            match delimited(pacote, REPORT_BATTERY, 4) {
                Some(bytes) => Some(EventView::Rejected(bytes)),
                None => None,
            }
        }
    }
}

/// The state when a session starts: the dongle's version is asked for first,
/// no query is outstanding, and requests are listened for.
pub open spec fn inicio() -> Sessao {
    Sessao { awaiting: false, has_requester: true, fase: Fase::Dongle }
}

/// A step of an open session: the state, the event and the action.
pub open spec fn spec_escuta(s: Sessao, passo: Passo, buf: Seq<u8>) -> (Sessao, Option<EventView>, Acao) {
    match passo {
        Passo::Died => (s, Some(EventView::Disconnected), Acao::End),
        Passo::Deadline => (Sessao { awaiting: false, ..s }, Some(EventView::NoResponse), Acao::Continue),
        Passo::Request => (s, None, Acao::WriteBatteryRequest),
        Passo::RequestsClosed => (Sessao { has_requester: false, ..s }, None, Acao::Continue),
        Passo::Read(n) => (Sessao { awaiting: false, ..s }, spec_read_event(buf, n as int), Acao::Continue),
        Passo::Firmware(_) => (s, None, Acao::Continue),
    }
}

/// The step relation: the state, the event and the action after `passo`.
/// While opening, a firmware answer moves the session on (the dongle's, then
/// the headset's, which publishes `Connected` with both and asks for the
/// battery query); a dead transport ends it; anything else leaves the query
/// owed.
pub open spec fn spec_on_step(s: Sessao, passo: Passo, buf: Seq<u8>) -> (Sessao, Option<EventView>, Acao) {
    match s.fase {
        Fase::Dongle => match passo {
            Passo::Firmware(v) => (Sessao { fase: Fase::Fone(v), ..s }, None, Acao::QueryFirmware(FirmwareTarget::Headset)),
            Passo::Died => (s, Some(EventView::Disconnected), Acao::End),
            _ => (s, None, Acao::QueryFirmware(FirmwareTarget::Dongle)),
        },
        Fase::Fone(dongle) => match passo {
            Passo::Firmware(headset) => (
                Sessao { fase: Fase::Aberta, ..s },
                Some(EventView::Connected { dongle, headset }),
                Acao::WriteBatteryRequest,
            ),
            Passo::Died => (s, Some(EventView::Disconnected), Acao::End),
            _ => (s, None, Acao::QueryFirmware(FirmwareTarget::Headset)),
        },
        Fase::Aberta => spec_escuta(s, passo, buf),
    }
}

/// What writing the battery query leads to: on success the response timeout
/// is armed; on failure the session ends with `Disconnected`.
pub open spec fn spec_on_write(s: Sessao, ok: bool) -> (Sessao, Option<EventView>, Acao) {
    if ok {
        (Sessao { awaiting: true, ..s }, None, Acao::Continue)
    } else {
        (s, Some(EventView::Disconnected), Acao::End)
    }
}

impl Sessao {
    /// Starts a session: the state, and the first thing to do, which is to
    /// ask for the dongle's firmware version.
    pub fn abrir() -> (r: (Sessao, Acao))
        ensures
            r.0 == inicio(),
            r.1 == Acao::QueryFirmware(FirmwareTarget::Dongle),
    {
        (Sessao { awaiting: false, has_requester: true, fase: Fase::Dongle }, Acao::QueryFirmware(FirmwareTarget::Dongle))
    }

    /// Whether the response timeout runs during the next wait.
    pub fn prazo_armado(&self) -> (b: bool)
        ensures
            b == self.awaiting,
    {
        self.awaiting
    }

    /// Whether requests are listened for during the next wait.
    pub fn escuta_pedidos(&self) -> (b: bool)
        ensures
            b == self.has_requester,
    {
        self.has_requester
    }

    fn escuta(&mut self, passo: Passo, buf: &[u8]) -> (r: (Option<DeviceEvent>, Acao))
        ensures
            (*final(self), event_view(r.0), r.1) == spec_escuta(*old(self), passo, buf@),
    {
        match passo {
            Passo::Died => (Some(DeviceEvent::Disconnected), Acao::End),
            Passo::Deadline => {
                self.awaiting = false;
                (Some(DeviceEvent::NoResponse), Acao::Continue)
            },
            Passo::Request => (None, Acao::WriteBatteryRequest),
            Passo::RequestsClosed => {
                self.has_requester = false;
                (None, Acao::Continue)
            },
            Passo::Firmware(_) => (None, Acao::Continue),
            Passo::Read(n) => {
                self.awaiting = false;
                if n > buf.len() {
                    return (None, Acao::Continue);
                }
                let pacote = vstd::slice::slice_subrange(buf, 0, n);
                match decode_battery(pacote) {
                    Ok(leitura) => (Some(DeviceEvent::Battery(leitura)), Acao::Continue),
                    Err(falha) => match falha.rejected {
                        Some(bytes) => {
                            let v = vstd::slice::slice_to_vec(bytes);
                            (Some(DeviceEvent::Rejected(v)), Acao::Continue)
                        },
                        None => (None, Acao::Continue),
                    },
                }
            },
        }
    }

    /// Applies what a wait or a firmware query produced. `buf` is the read
    /// buffer; for `Passo::Read(n)` its first `n` bytes are the packet.
    pub fn on_step(&mut self, passo: Passo, buf: &[u8]) -> (r: (Option<DeviceEvent>, Acao))
        ensures
            (*final(self), event_view(r.0), r.1) == spec_on_step(*old(self), passo, buf@),
    {
        match self.fase {
            Fase::Dongle => match passo {
                Passo::Firmware(v) => {
                    self.fase = Fase::Fone(v);
                    (None, Acao::QueryFirmware(FirmwareTarget::Headset))
                },
                Passo::Died => (Some(DeviceEvent::Disconnected), Acao::End),
                _ => (None, Acao::QueryFirmware(FirmwareTarget::Dongle)),
            },
            Fase::Fone(dongle) => match passo {
                Passo::Firmware(headset) => {
                    self.fase = Fase::Aberta;
                    (Some(DeviceEvent::Connected { dongle, headset }), Acao::WriteBatteryRequest)
                },
                Passo::Died => (Some(DeviceEvent::Disconnected), Acao::End),
                _ => (None, Acao::QueryFirmware(FirmwareTarget::Headset)),
            },
            Fase::Aberta => self.escuta(passo, buf),
        }
    }

    /// Applies the result of writing the battery query (at connection or on
    /// request).
    pub fn on_write(&mut self, ok: bool) -> (r: (Option<DeviceEvent>, Acao))
        ensures
            (*final(self), event_view(r.0), r.1) == spec_on_write(*old(self), ok),
    {
        if ok {
            self.awaiting = true;
            (None, Acao::Continue)
        } else {
            (Some(DeviceEvent::Disconnected), Acao::End)
        }
    }
}

/// No traffic in steady state: once a session is open, the only step after
/// which it writes to the device is a consumer's request.
pub proof fn law_queries_only_on_request(s: Sessao, passo: Passo, buf: Seq<u8>)
    requires
        s.fase == Fase::Aberta,
    ensures
        spec_on_step(s, passo, buf).2 == Acao::WriteBatteryRequest <==> passo == Passo::Request,
        !(spec_on_step(s, passo, buf).2 is QueryFirmware),
{
}

/// Foreign traffic (media keys, telephony) on the same hidraw publishes
/// nothing: a read whose first byte is not the battery report id produces no
/// event.
pub proof fn law_foreign_traffic_is_silent(s: Sessao, n: usize, buf: Seq<u8>)
    requires
        n <= buf.len(),
        n == 0 || buf[0] != REPORT_BATTERY,
    ensures
        spec_on_step(s, Passo::Read(n), buf).1 is None,
{
}

/// A rejection carries at most the four bytes that the battery channel
/// delimits, and they are the start of the packet that was read.
pub proof fn law_rejected_is_a_delimited_prefix(s: Sessao, n: usize, buf: Seq<u8>, bytes: Seq<u8>)
    requires
        spec_on_step(s, Passo::Read(n), buf).1 == Some(EventView::Rejected(bytes)),
    ensures
        bytes.len() <= 4,
        bytes.len() > 0,
        bytes == buf.subrange(0, bytes.len() as int),
{
    assert(bytes =~= buf.subrange(0, bytes.len() as int));
}

/// The session ends exactly when the transport dies or a battery query cannot
/// be written, and then the last thing it publishes is `Disconnected`.
pub proof fn law_death_ends_with_disconnected(s: Sessao, passo: Passo, buf: Seq<u8>, ok: bool)
    ensures
        spec_on_step(s, passo, buf).2 == Acao::End <==> passo == Passo::Died,
        passo == Passo::Died ==> spec_on_step(s, passo, buf).1 == Some(EventView::Disconnected),
        spec_on_write(s, ok).2 == Acao::End <==> !ok,
        !ok ==> spec_on_write(s, ok).1 == Some(EventView::Disconnected),
{
}

/// A finished read or a timeout disarms the deadline, so a silent headset
/// produces one `NoResponse` per query, not one per timeout period.
pub proof fn law_one_timeout_per_query(s: Sessao, passo: Passo, buf: Seq<u8>)
    requires
        s.fase == Fase::Aberta,
        passo == Passo::Deadline || passo matches Passo::Read(_),
    ensures
        !spec_on_step(s, passo, buf).0.awaiting,
{
}

/// Every packet the decoder accepts is published as a reading, whatever the
/// charge state it reports: in an open session, a read whose first `n` bytes
/// are an accepted battery answer publishes the percentage of byte 2 and the
/// state of byte 3, and the session goes on.
pub proof fn law_every_accepted_read_is_published(s: Sessao, n: usize, buf: Seq<u8>)
    requires
        s.fase == Fase::Aberta,
        n <= buf.len(),
        battery_accepts(buf.subrange(0, n as int)),
    ensures
        spec_on_step(s, Passo::Read(n), buf).1 == Some(
            EventView::Battery(BatteryReading { percent: buf[2], state: spec_charge_state(buf[3]) }),
        ),
        spec_on_step(s, Passo::Read(n), buf).2 == Acao::Continue,
{
}

/// The opening publishes the two versions it was answered, each in its place:
/// the first answer is the dongle's and the second the headset's.
pub proof fn law_connected_carries_both_versions(
    d: Option<FirmwareVersion>,
    h: Option<FirmwareVersion>,
    b1: Seq<u8>,
    b2: Seq<u8>,
)
    ensures
        ({
            let s1 = spec_on_step(inicio(), Passo::Firmware(d), b1);
            let s2 = spec_on_step(s1.0, Passo::Firmware(h), b2);
            &&& s1.1 is None && s1.2 == Acao::QueryFirmware(FirmwareTarget::Headset)
            &&& s2.1 == Some(EventView::Connected { dongle: d, headset: h })
            &&& s2.2 == Acao::WriteBatteryRequest
            &&& s2.0.fase == Fase::Aberta && !s2.0.awaiting && s2.0.has_requester
        }),
{
}

/// A battery query that times out is reported once: in an open session the
/// deadline publishes `NoResponse`, disarms the deadline, and the session goes
/// on listening.
pub proof fn law_timeout_is_reported(s: Sessao, buf: Seq<u8>)
    requires
        s.fase == Fase::Aberta,
    ensures
        spec_on_step(s, Passo::Deadline, buf).1 == Some(EventView::NoResponse),
        spec_on_step(s, Passo::Deadline, buf).2 == Acao::Continue,
        spec_on_step(s, Passo::Deadline, buf).0 == (Sessao { awaiting: false, ..s }),
{
}

/// What the caller's loop hands the session: the outcome of a wait or of a
/// firmware query, with the read buffer, or the outcome of writing the
/// battery query.
pub enum Entrada {
    Espera(Passo, Seq<u8>),
    Escrita(bool),
}

/// What a session does that is seen from outside.
pub enum Saida {
    /// A firmware query.
    Consulta(FirmwareTarget),
    /// A battery query.
    EscreveBateria,
    /// An event.
    Publica(EventView),
}

/// Whether the caller's loop hands `e` to a session in state `s` that asked
/// for `a`: a firmware version answers a firmware query, a write's outcome
/// answers a battery query, and waiting happens only after `Continue`, on the
/// deadline only while it is armed and on requests only while they are
/// listened for. After `End` nothing is handed over.
pub open spec fn cabe(s: Sessao, a: Acao, e: Entrada) -> bool {
    match e {
        Entrada::Escrita(_) => a == Acao::WriteBatteryRequest,
        Entrada::Espera(p, _) => match a {
            Acao::QueryFirmware(_) => p is Firmware,
            Acao::Continue => match p {
                Passo::Firmware(_) => false,
                Passo::Deadline => s.awaiting,
                Passo::Request => s.has_requester,
                Passo::RequestsClosed => s.has_requester,
                _ => true,
            },
            _ => false,
        },
    }
}

/// The session's answer to what the loop handed it.
pub open spec fn responde(s: Sessao, e: Entrada) -> (Sessao, Option<EventView>, Acao) {
    match e {
        Entrada::Escrita(ok) => spec_on_write(s, ok),
        Entrada::Espera(p, buf) => spec_on_step(s, p, buf),
    }
}

/// What performing an action shows.
pub open spec fn efeito(a: Acao) -> Seq<Saida> {
    match a {
        Acao::QueryFirmware(t) => seq![Saida::Consulta(t)],
        Acao::WriteBatteryRequest => seq![Saida::EscreveBateria],
        _ => seq![],
    }
}

/// What publishing an optional event shows.
pub open spec fn publicado(e: Option<EventView>) -> Seq<Saida> {
    match e {
        Some(e) => seq![Saida::Publica(e)],
        None => seq![],
    }
}

/// What a session in state `s`, having asked for `a`, shows while the loop
/// hands it `es`: for each input that fits, the event it publishes and the
/// action it performs next.
pub open spec fn traco_de(s: Sessao, a: Acao, es: Seq<Entrada>) -> Seq<Saida>
    decreases es.len(),
{
    if es.len() == 0 {
        seq![]
    } else if !cabe(s, a, es[0]) {
        traco_de(s, a, es.drop_first())
    } else {
        let r = responde(s, es[0]);
        publicado(r.1) + efeito(r.2) + traco_de(r.0, r.2, es.drop_first())
    }
}

/// The action a session is left with after `es`.
pub open spec fn fim_de(s: Sessao, a: Acao, es: Seq<Entrada>) -> Acao
    decreases es.len(),
{
    if es.len() == 0 {
        a
    } else if !cabe(s, a, es[0]) {
        fim_de(s, a, es.drop_first())
    } else {
        let r = responde(s, es[0]);
        fim_de(r.0, r.2, es.drop_first())
    }
}

/// How many consumer requests the session took during `es`.
pub open spec fn pedidos_de(s: Sessao, a: Acao, es: Seq<Entrada>) -> nat
    decreases es.len(),
{
    if es.len() == 0 {
        0
    } else if !cabe(s, a, es[0]) {
        pedidos_de(s, a, es.drop_first())
    } else {
        let r = responde(s, es[0]);
        (if es[0] matches Entrada::Espera(Passo::Request, _) { 1nat } else { 0nat }) + pedidos_de(r.0, r.2, es.drop_first())
    }
}

/// The whole trace of a session, from its start, while the loop hands it `es`.
pub open spec fn traco(es: Seq<Entrada>) -> Seq<Saida> {
    efeito(Acao::QueryFirmware(FirmwareTarget::Dongle)) + traco_de(inicio(), Acao::QueryFirmware(FirmwareTarget::Dongle), es)
}

/// How many times `x` occurs in `t`.
pub open spec fn conta(t: Seq<Saida>, x: Saida) -> nat
    decreases t.len(),
{
    if t.len() == 0 {
        0
    } else {
        (if t[0] == x { 1nat } else { 0nat }) + conta(t.drop_first(), x)
    }
}

/// A firmware query.
pub open spec fn e_consulta(x: Saida) -> bool {
    x is Consulta
}

/// The `Connected` event.
pub open spec fn e_conexao(x: Saida) -> bool {
    x matches Saida::Publica(EventView::Connected { .. })
}

/// The `Disconnected` event.
pub open spec fn e_desconexao(x: Saida) -> bool {
    x == Saida::Publica(EventView::Disconnected)
}

/// From position `de` on, no firmware query and no `Connected`.
pub open spec fn so_escuta(u: Seq<Saida>, de: int) -> bool {
    forall|i: int| de <= i < u.len() ==> !e_consulta(#[trigger] u[i]) && !e_conexao(u[i])
}

/// `Disconnected`, if anywhere, is the last thing.
pub open spec fn desconexao_no_fim(u: Seq<Saida>) -> bool {
    forall|i: int| 0 <= i < u.len() - 1 ==> !e_desconexao(#[trigger] u[i])
}

/// The trace ends with `Disconnected`.
pub open spec fn termina_desconectado(u: Seq<Saida>) -> bool {
    u.len() > 0 && e_desconexao(u[u.len() - 1])
}

proof fn lemma_conta_soma(a: Seq<Saida>, b: Seq<Saida>, x: Saida)
    ensures
        conta(a + b, x) == conta(a, x) + conta(b, x),
    decreases a.len(),
{
    if a.len() == 0 {
        assert(a + b =~= b);
    } else {
        lemma_conta_soma(a.drop_first(), b, x);
        assert((a + b).drop_first() =~= a.drop_first() + b);
    }
}

proof fn lemma_conta_unitario(y: Saida, x: Saida)
    ensures
        conta(seq![y], x) == (if y == x { 1nat } else { 0nat }),
{
    assert(seq![y].drop_first() =~= Seq::<Saida>::empty());
    assert(conta(seq![y].drop_first(), x) == 0);
}

/// The open phase: no query but battery queries, `Disconnected` only last and
/// exactly when the session ends, one battery query per request taken, and
/// no more `NoResponse` than battery queries.
proof fn lemma_aberta(s: Sessao, a: Acao, es: Seq<Entrada>, nr0: int, w0: int)
    requires
        s.fase == Fase::Aberta,
        !(a is QueryFirmware),
        nr0 + (if s.awaiting { 1int } else { 0int }) <= w0,
        a == Acao::WriteBatteryRequest ==> nr0 + 1 <= w0,
    ensures
        so_escuta(traco_de(s, a, es), 0),
        desconexao_no_fim(traco_de(s, a, es)),
        a != Acao::End ==> (termina_desconectado(traco_de(s, a, es)) <==> fim_de(s, a, es) == Acao::End),
        a == Acao::End ==> traco_de(s, a, es).len() == 0 && fim_de(s, a, es) == Acao::End,
        conta(traco_de(s, a, es), Saida::EscreveBateria) == pedidos_de(s, a, es),
        nr0 + conta(traco_de(s, a, es), Saida::Publica(EventView::NoResponse)) <= w0 + conta(traco_de(s, a, es), Saida::EscreveBateria),
    decreases es.len(),
{
    let u = traco_de(s, a, es);
    if es.len() == 0 {
        return;
    }
    let rest = es.drop_first();
    if !cabe(s, a, es[0]) {
        lemma_aberta(s, a, rest, nr0, w0);
        return;
    }
    let r = responde(s, es[0]);
    let p = publicado(r.1);
    let f = efeito(r.2);
    let v = traco_de(r.0, r.2, rest);
    assert(u == p + f + v);
    let nr1 = nr0 + (if r.1 == Some(EventView::NoResponse) { 1int } else { 0int });
    let w1 = w0 + (if r.2 == Acao::WriteBatteryRequest { 1int } else { 0int });
    lemma_aberta(r.0, r.2, rest, nr1, w1);
    let nr = Saida::Publica(EventView::NoResponse);
    let wb = Saida::EscreveBateria;
    lemma_conta_soma(p + f, v, nr);
    lemma_conta_soma(p + f, v, wb);
    lemma_conta_soma(p, f, nr);
    lemma_conta_soma(p, f, wb);
    match r.1 {
        Some(e) => {
            lemma_conta_unitario(Saida::Publica(e), nr);
            lemma_conta_unitario(Saida::Publica(e), wb);
        },
        None => {
            assert(p =~= Seq::<Saida>::empty());
        },
    }
    match r.2 {
        Acao::WriteBatteryRequest => {
            lemma_conta_unitario(wb, nr);
            lemma_conta_unitario(wb, wb);
        },
        _ => {
            assert(f =~= Seq::<Saida>::empty());
        },
    }
    assert(so_escuta(u, 0)) by {
        assert forall|i: int| 0 <= i < u.len() implies !e_consulta(#[trigger] u[i]) && !e_conexao(u[i]) by {
            if i >= p.len() + f.len() {
                assert(u[i] == v[i - p.len() - f.len()]);
            }
        }
    }
    if r.2 == Acao::End {
        assert(v.len() == 0);
        assert(u =~= p);
    }
    assert(desconexao_no_fim(u)) by {
        assert forall|i: int| 0 <= i < u.len() - 1 implies !e_desconexao(#[trigger] u[i]) by {
            if i >= p.len() + f.len() {
                assert(u[i] == v[i - p.len() - f.len()]);
            }
        }
    }
    if v.len() > 0 {
        assert(u[u.len() - 1] == v[v.len() - 1]);
    } else {
        assert(u =~= p + f);
    }
}

/// The phase after the dongle's answer: `Connected`, the battery query, then
/// the open phase.
proof fn lemma_fone(s: Sessao, es: Seq<Entrada>)
    requires
        s.fase is Fone,
        !s.awaiting,
    ensures
        ({
            let u = traco_de(s, Acao::QueryFirmware(FirmwareTarget::Headset), es);
            &&& u.len() > 0 ==> u.len() >= 2 && e_conexao(u[0]) && u[1] == Saida::EscreveBateria
            &&& so_escuta(u, 1)
            &&& desconexao_no_fim(u)
            &&& termina_desconectado(u) <==> fim_de(s, Acao::QueryFirmware(FirmwareTarget::Headset), es) == Acao::End
            &&& conta(u, Saida::EscreveBateria) == (if u.len() > 0 { 1nat } else { 0nat })
                + pedidos_de(s, Acao::QueryFirmware(FirmwareTarget::Headset), es)
            &&& conta(u, Saida::Publica(EventView::NoResponse)) <= conta(u, Saida::EscreveBateria)
        }),
    decreases es.len(),
{
    let a = Acao::QueryFirmware(FirmwareTarget::Headset);
    let u = traco_de(s, a, es);
    if es.len() == 0 {
        return;
    }
    let rest = es.drop_first();
    if !cabe(s, a, es[0]) {
        lemma_fone(s, rest);
        return;
    }
    let r = responde(s, es[0]);
    let v = traco_de(r.0, r.2, rest);
    let c = r.1.unwrap();
    let pf = seq![Saida::Publica(c), Saida::EscreveBateria];
    assert(publicado(r.1) + efeito(r.2) =~= pf);
    assert(u == pf + v);
    lemma_aberta(r.0, r.2, rest, 0, 1);
    let nr = Saida::Publica(EventView::NoResponse);
    let wb = Saida::EscreveBateria;
    lemma_conta_soma(pf, v, nr);
    lemma_conta_soma(pf, v, wb);
    assert(pf.drop_first() =~= seq![wb]);
    lemma_conta_unitario(wb, nr);
    lemma_conta_unitario(wb, wb);
    assert(so_escuta(u, 1)) by {
        assert forall|i: int| 1 <= i < u.len() implies !e_consulta(#[trigger] u[i]) && !e_conexao(u[i]) by {
            if i >= 2 {
                assert(u[i] == v[i - 2]);
            }
        }
    }
    assert(desconexao_no_fim(u)) by {
        assert forall|i: int| 0 <= i < u.len() - 1 implies !e_desconexao(#[trigger] u[i]) by {
            if i >= 2 {
                assert(u[i] == v[i - 2]);
            }
        }
    }
    if v.len() > 0 {
        assert(u[u.len() - 1] == v[v.len() - 1]);
    }
}

/// The opening: the headset's query, then the phase after it.
proof fn lemma_dongle(s: Sessao, es: Seq<Entrada>)
    requires
        s.fase == Fase::Dongle,
        !s.awaiting,
    ensures
        ({
            let u = traco_de(s, Acao::QueryFirmware(FirmwareTarget::Dongle), es);
            &&& u.len() > 0 ==> u[0] == Saida::Consulta(FirmwareTarget::Headset)
            &&& u.len() > 1 ==> u.len() >= 3 && e_conexao(u[1]) && u[2] == Saida::EscreveBateria
            &&& so_escuta(u, 2)
            &&& desconexao_no_fim(u)
            &&& termina_desconectado(u) <==> fim_de(s, Acao::QueryFirmware(FirmwareTarget::Dongle), es) == Acao::End
            &&& conta(u, Saida::EscreveBateria) == (if u.len() > 1 { 1nat } else { 0nat })
                + pedidos_de(s, Acao::QueryFirmware(FirmwareTarget::Dongle), es)
            &&& conta(u, Saida::Publica(EventView::NoResponse)) <= conta(u, Saida::EscreveBateria)
        }),
    decreases es.len(),
{
    let a = Acao::QueryFirmware(FirmwareTarget::Dongle);
    let u = traco_de(s, a, es);
    if es.len() == 0 {
        return;
    }
    let rest = es.drop_first();
    if !cabe(s, a, es[0]) {
        lemma_dongle(s, rest);
        return;
    }
    let r = responde(s, es[0]);
    let v = traco_de(r.0, r.2, rest);
    let q = Saida::Consulta(FirmwareTarget::Headset);
    assert(publicado(r.1) + efeito(r.2) =~= seq![q]);
    assert(u == seq![q] + v);
    lemma_fone(r.0, rest);
    let nr = Saida::Publica(EventView::NoResponse);
    let wb = Saida::EscreveBateria;
    lemma_conta_soma(seq![q], v, nr);
    lemma_conta_soma(seq![q], v, wb);
    lemma_conta_unitario(q, nr);
    lemma_conta_unitario(q, wb);
    assert(so_escuta(u, 2)) by {
        assert forall|i: int| 2 <= i < u.len() implies !e_consulta(#[trigger] u[i]) && !e_conexao(u[i]) by {
            assert(u[i] == v[i - 1]);
        }
    }
    assert(desconexao_no_fim(u)) by {
        assert forall|i: int| 0 <= i < u.len() - 1 implies !e_desconexao(#[trigger] u[i]) by {
            if i >= 1 {
                assert(u[i] == v[i - 1]);
            }
        }
    }
    if v.len() > 0 {
        assert(u[u.len() - 1] == v[v.len() - 1]);
        assert(u[1] == v[0]);
        assert(u[2] == v[1]);
    }
}

/// The whole trace of a session, whatever the device and the consumers do:
/// it starts with the two firmware queries, the dongle's first; `Connected` is
/// the first event and comes right after them, followed by exactly one battery
/// query; no firmware query and no other `Connected` follow; `Disconnected`
/// can only be the last thing, and it is exactly when the session ends;
/// battery queries are one at connection plus one per request taken; and
/// there are never more `NoResponse` than battery queries.
pub proof fn law_session_trace(es: Seq<Entrada>)
    ensures
        ({
            let t = traco(es);
            let a0 = Acao::QueryFirmware(FirmwareTarget::Dongle);
            &&& t.len() >= 1 && t[0] == Saida::Consulta(FirmwareTarget::Dongle)
            &&& t.len() >= 2 ==> t[1] == Saida::Consulta(FirmwareTarget::Headset)
            &&& t.len() >= 3 ==> e_conexao(t[2]) && t.len() >= 4 && t[3] == Saida::EscreveBateria
            &&& so_escuta(t, 3)
            &&& desconexao_no_fim(t)
            &&& termina_desconectado(t) <==> fim_de(inicio(), a0, es) == Acao::End
            &&& conta(t, Saida::EscreveBateria) == (if t.len() >= 3 { 1nat } else { 0nat }) + pedidos_de(inicio(), a0, es)
            &&& conta(t, Saida::Publica(EventView::NoResponse)) <= conta(t, Saida::EscreveBateria)
        }),
{
    let a0 = Acao::QueryFirmware(FirmwareTarget::Dongle);
    let t = traco(es);
    let q = Saida::Consulta(FirmwareTarget::Dongle);
    let u = traco_de(inicio(), a0, es);
    assert(efeito(a0) =~= seq![q]);
    assert(t == seq![q] + u);
    lemma_dongle(inicio(), es);
    let nr = Saida::Publica(EventView::NoResponse);
    let wb = Saida::EscreveBateria;
    lemma_conta_soma(seq![q], u, nr);
    lemma_conta_soma(seq![q], u, wb);
    lemma_conta_unitario(q, nr);
    lemma_conta_unitario(q, wb);
    assert(so_escuta(t, 3)) by {
        assert forall|i: int| 3 <= i < t.len() implies !e_consulta(#[trigger] t[i]) && !e_conexao(t[i]) by {
            assert(t[i] == u[i - 1]);
        }
    }
    assert(desconexao_no_fim(t)) by {
        assert forall|i: int| 0 <= i < t.len() - 1 implies !e_desconexao(#[trigger] t[i]) by {
            if i >= 1 {
                assert(t[i] == u[i - 1]);
            }
        }
    }
    if u.len() > 0 {
        assert(t[t.len() - 1] == u[u.len() - 1]);
        assert(t[1] == u[0]);
    }
    if u.len() > 1 {
        assert(t[2] == u[1]);
        assert(t[3] == u[2]);
    }
}

} // verus!
