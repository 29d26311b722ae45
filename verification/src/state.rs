//! What to show, given what the device said.
//!
//! This module knows no UI toolkit: it takes [`DeviceEvent`]s and gives back
//! the phrase, the percentage and the firmware versions; the UI layer only
//! turns these into widgets.

use vstd::prelude::*;
use vstd::string::StringExecFns;

use crate::battery::ChargeState;
use crate::firmware::{spec_vendor_string, FirmwareVersion};
use crate::machine::{DeviceEvent, EventView};

verus! {

/// What the interface needs to know.
#[derive(Debug, Clone)]
pub struct AppletState {
    percent: Option<u8>,
    status: Option<String>,
    dongle: Option<FirmwareVersion>,
    headset: Option<FirmwareVersion>,
}

/// The mathematical form of the state.
pub struct AppletView {
    /// Last known percentage.
    pub percent: Option<u8>,
    /// Current phrase, if any event produced one yet.
    pub status: Option<Seq<char>>,
    /// Last known dongle firmware.
    pub dongle: Option<FirmwareVersion>,
    /// Last known headset firmware.
    pub headset: Option<FirmwareVersion>,
}

impl View for AppletState {
    type V = AppletView;

    closed spec fn view(&self) -> AppletView {
        AppletView {
            percent: self.percent,
            status: match self.status {
                Some(s) => Some(s@),
                None => None,
            },
            dongle: self.dongle,
            headset: self.headset,
        }
    }
}

/// How a charge state reads in Portuguese. The raw byte of an unknown state
/// never enters the phrase.
pub open spec fn spec_carga(state: ChargeState) -> Seq<char> {
    match state {
        ChargeState::Discharging => "descarregando"@,
        ChargeState::Charging => "carregando"@,
        ChargeState::Full => "bateria cheia"@,
        ChargeState::Asleep => "dormindo"@,
        ChargeState::Unknown(_) => "estado desconhecido"@,
    }
}

/// How a charge state reads in Portuguese.
pub fn carga_por_extenso(state: ChargeState) -> (s: &'static str)
    ensures
        s@ == spec_carga(state),
{
    match state {
        ChargeState::Discharging => "descarregando",
        ChargeState::Charging => "carregando",
        ChargeState::Full => "bateria cheia",
        ChargeState::Asleep => "dormindo",
        ChargeState::Unknown(_) => "estado desconhecido",
    }
}

/// The phrase each event leaves, or `None` for an event that does not touch it.
pub open spec fn spec_frase(e: EventView) -> Option<Seq<char>> {
    match e {
        EventView::Connected { .. } => Some("dongle conectado"@),
        EventView::Battery(r) => Some(spec_carga(r.state)),
        EventView::NoResponse => Some("fone não respondeu — pode estar desligado ou carregando"@),
        EventView::Disconnected => Some("dongle removido"@),
        EventView::NoDevice => Some("dongle não encontrado"@),
        EventView::PermissionDenied => Some("sem acesso ao dispositivo — instale a regra 72-mchose-v9.rules"@),
        EventView::Rejected(_) => None,
    }
}

/// The state after an event.
pub open spec fn spec_apply(s: AppletView, e: EventView) -> AppletView {
    let status = match spec_frase(e) {
        Some(f) => Some(f),
        None => s.status,
    };
    match e {
        EventView::Connected { dongle, headset } => AppletView {
            status,
            dongle: if dongle is Some { dongle } else { s.dongle },
            headset: if headset is Some { headset } else { s.headset },
            ..s
        },
        EventView::Battery(r) => AppletView {
            percent: if r.state is Asleep { s.percent } else { Some(r.percent) },
            status,
            ..s
        },
        _ => AppletView { status, ..s },
    }
}

/// The phrase shown before any event.
pub open spec fn frase_inicial() -> Seq<char> {
    "procurando o dongle"@
}

/// A firmware version ready to show: the vendor's form, or "desconhecida".
pub open spec fn spec_versao(v: Option<FirmwareVersion>) -> Seq<char> {
    match v {
        Some(v) => spec_vendor_string(v.bytes@),
        None => "desconhecida"@,
    }
}

impl Default for AppletState {
    /// Nothing known yet.
    fn default() -> (s: AppletState)
        ensures
            s@.percent is None,
            s@.status is None,
            s@.dongle is None,
            s@.headset is None,
    {
        AppletState { percent: None, status: None, dongle: None, headset: None }
    }
}

impl AppletState {
    /// Applies an event of the device.
    pub fn apply(&mut self, evento: DeviceEvent)
        ensures
            final(self)@ == spec_apply(old(self)@, evento@),
    {
        match evento {
            DeviceEvent::Connected { dongle, headset } => {
                // `None` means "did not answer now", not "the version is gone".
                if dongle.is_some() {
                    self.dongle = dongle;
                }
                if headset.is_some() {
                    self.headset = headset;
                }
                self.status = Some(String::from_str("dongle conectado"));
            },
            DeviceEvent::Battery(leitura) => {
                // Asleep comes with a percentage that is not authoritative:
                // the last known one stays.
                match leitura.state {
                    ChargeState::Asleep => {},
                    _ => {
                        self.percent = Some(leitura.percent);
                    },
                }
                self.status = Some(String::from_str(carga_por_extenso(leitura.state)));
            },
            DeviceEvent::NoResponse => {
                self.status = Some(
                    String::from_str("fone não respondeu — pode estar desligado ou carregando"),
                );
            },
            DeviceEvent::Disconnected => {
                self.status = Some(String::from_str("dongle removido"));
            },
            DeviceEvent::NoDevice => {
                self.status = Some(String::from_str("dongle não encontrado"));
            },
            DeviceEvent::PermissionDenied { .. } => {
                // The device path stays out of the phrase on purpose.
                self.status = Some(
                    String::from_str("sem acesso ao dispositivo — instale a regra 72-mchose-v9.rules"),
                );
            },
            DeviceEvent::Rejected(_) => {},
        }
    }

    /// Records that the event flow fell and that a new attempt is coming.
    pub fn stream_failed(&mut self, motivo: &str)
        ensures
            final(self)@ == (AppletView {
                status: Some("sem contato com o dispositivo, reconectando ("@ + motivo@ + ")"@),
                ..old(self)@
            }),
    {
        let mut s = String::from_str("sem contato com o dispositivo, reconectando (");
        s.append(motivo);
        s.append(")");
        self.status = Some(s);
    }

    /// The percentage for the panel; `None` when there never was a reading.
    pub fn panel_percent(&self) -> (p: Option<u8>)
        ensures
            p == self@.percent,
    {
        self.percent
    }

    /// The status phrase, for the popover.
    pub fn status(&self) -> (s: &str)
        ensures
            s@ == match self@.status {
                Some(f) => f,
                None => frase_inicial(),
            },
    {
        match &self.status {
            Some(s) => s.as_str(),
            None => "procurando o dongle",
        }
    }

    /// Firmware version of the dongle, ready to show.
    pub fn dongle_firmware(&self) -> (s: String)
        ensures
            s@ == spec_versao(self@.dongle),
    {
        Self::versao(self.dongle)
    }

    /// Firmware version of the headset, ready to show.
    pub fn headset_firmware(&self) -> (s: String)
        ensures
            s@ == spec_versao(self@.headset),
    {
        Self::versao(self.headset)
    }

    fn versao(v: Option<FirmwareVersion>) -> (s: String)
        ensures
            s@ == spec_versao(v),
    {
        match v {
            Some(v) => v.vendor_string(),
            None => String::from_str("desconhecida"),
        }
    }
}

/// The last known percentage survives every event but an authoritative
/// reading: silence, removal and an asleep headset take the phrase, not the
/// number.
pub proof fn law_percent_survives(s: AppletView, e: EventView)
    requires
        !(e matches EventView::Battery(r) && !(r.state is Asleep)),
    ensures
        spec_apply(s, e).percent == s.percent,
{
}

/// A known firmware version is never erased: a later connection that brings
/// `None` keeps it, and only a new version replaces it.
pub proof fn law_known_firmware_is_kept(s: AppletView, e: EventView)
    requires
        s.dongle is Some,
        s.headset is Some,
    ensures
        spec_apply(s, e).dongle is Some,
        spec_apply(s, e).headset is Some,
        !(e matches EventView::Connected { .. }) ==> spec_apply(s, e).dongle == s.dongle && spec_apply(s, e).headset == s.headset,
{
}

/// A rejected packet changes nothing the interface shows, and its bytes reach
/// none of it.
pub proof fn law_rejected_changes_nothing(s: AppletView, bytes: Seq<u8>)
    ensures
        spec_apply(s, EventView::Rejected(bytes)) == s,
{
}

/// A reading of an awake headset always leaves its percentage on the panel,
/// whatever came before.
pub proof fn law_reading_shows_its_percent(s: AppletView, r: crate::battery::BatteryReading)
    requires
        !(r.state is Asleep),
    ensures
        spec_apply(s, EventView::Battery(r)).percent == Some(r.percent),
{
}

/// A version that comes with a connection replaces the one known, for the
/// dongle and for the headset alike; only a `None` keeps the old one.
pub proof fn law_connection_brings_the_current_version(
    s: AppletView,
    dongle: Option<FirmwareVersion>,
    headset: Option<FirmwareVersion>,
)
    ensures
        dongle is Some ==> spec_apply(s, EventView::Connected { dongle, headset }).dongle == dongle,
        headset is Some ==> spec_apply(s, EventView::Connected { dongle, headset }).headset == headset,
        dongle is None ==> spec_apply(s, EventView::Connected { dongle, headset }).dongle == s.dongle,
        headset is None ==> spec_apply(s, EventView::Connected { dongle, headset }).headset == s.headset,
{
}

} // verus!
