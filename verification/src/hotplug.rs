//! Supervision: the decisions that keep the event flow alive while the
//! dongle comes and goes.
//!
//! The caller enumerates sysfs and tries to open the device each time the
//! kernel announces a change on `hidraw`; what that attempt found is handed to
//! [`Busca::on_probe`], which says what to publish and whether the transport
//! can be used.

use vstd::prelude::*;

use crate::machine::{event_view, DeviceEvent, EventView};

verus! {

/// What one attempt to find and open the device found.
#[derive(Debug, Clone, PartialEq, Eq)]
pub enum Sondagem {
    /// No hidraw matches.
    Ausente,
    /// The device node opened; `esperado` is the `rdev` read from sysfs when
    /// it was identified, `obtido` the one of the opened node.
    Aberto { esperado: u64, obtido: u64 },
    /// Opening returned `EACCES`.
    SemPermissao { path: String },
    /// Opening failed for another reason.
    Falhou,
}

/// The state of one search for the device: which warnings were already
/// published. Each warning goes out once per search: the monitor wakes on any
/// change of any hidraw, and repeating the event would flood the applet.
#[derive(Debug, Clone, Copy, PartialEq, Eq)]
pub struct Busca {
    /// `NoDevice` was published.
    pub avisou_ausencia: bool,
    /// `PermissionDenied` was published.
    pub avisou_permissao: bool,
}

/// The step relation of a search: the new state, the event published, and
/// whether the opened transport is the one to use.
pub open spec fn spec_on_probe(b: Busca, s: Sondagem) -> (Busca, Option<EventView>, bool) {
    match s {
        Sondagem::Ausente => if b.avisou_ausencia {
            (b, None, false)
        } else {
            (Busca { avisou_ausencia: true, ..b }, Some(EventView::NoDevice), false)
        },
        Sondagem::Aberto { esperado, obtido } => (b, None, esperado == obtido),
        Sondagem::SemPermissao { .. } => if b.avisou_permissao {
            (b, None, false)
        } else {
            (Busca { avisou_permissao: true, ..b }, Some(EventView::PermissionDenied), false)
        },
        Sondagem::Falhou => (b, None, false),
    }
}

impl Busca {
    /// A search that has published nothing yet.
    pub fn new() -> (b: Busca)
        ensures
            !b.avisou_ausencia,
            !b.avisou_permissao,
    {
        Busca { avisou_ausencia: false, avisou_permissao: false }
    }

    /// Applies one attempt. The transport is used only when the `rdev` of the
    /// opened node is the one identified in sysfs: the hidraw minor is
    /// recycled, and between identifying and opening a re-enumeration fits.
    pub fn on_probe(&mut self, s: Sondagem) -> (r: (Option<DeviceEvent>, bool))
        ensures
            (*final(self), event_view(r.0), r.1) == spec_on_probe(*old(self), s),
            r.0 matches Some(DeviceEvent::PermissionDenied { path }) ==> s == (Sondagem::SemPermissao { path }),
    {
        match s {
            Sondagem::Ausente => {
                if self.avisou_ausencia {
                    (None, false)
                } else {
                    self.avisou_ausencia = true;
                    (Some(DeviceEvent::NoDevice), false)
                }
            },
            Sondagem::Aberto { esperado, obtido } => (None, esperado == obtido),
            Sondagem::SemPermissao { path } => {
                if self.avisou_permissao {
                    (None, false)
                } else {
                    self.avisou_permissao = true;
                    (Some(DeviceEvent::PermissionDenied { path }), false)
                }
            },
            Sondagem::Falhou => (None, false),
        }
    }
}

/// Within one search, each warning is published at most once: once a warning
/// went out, any later attempt publishes nothing of that kind.
pub proof fn law_each_warning_once(b: Busca, s: Sondagem)
    ensures
        b.avisou_ausencia ==> spec_on_probe(b, s).1 != Some(EventView::NoDevice),
        b.avisou_permissao ==> spec_on_probe(b, s).1 != Some(EventView::PermissionDenied),
        spec_on_probe(b, s).0.avisou_ausencia == (b.avisou_ausencia || s == Sondagem::Ausente),
{
}

/// `EACCES` is never reported as "no dongle": a permission failure never
/// publishes `NoDevice`, and absence never publishes `PermissionDenied`.
pub proof fn law_permission_is_not_absence(b: Busca, s: Sondagem)
    ensures
        s matches Sondagem::SemPermissao { .. } ==> spec_on_probe(b, s).1 != Some(EventView::NoDevice),
        s == Sondagem::Ausente ==> spec_on_probe(b, s).1 != Some(EventView::PermissionDenied),
{
}

/// A transport is used only when identification and opening saw the same
/// device.
pub proof fn law_use_only_same_rdev(b: Busca, s: Sondagem)
    requires
        spec_on_probe(b, s).2,
    ensures
        s matches Sondagem::Aberto { esperado, obtido } && esperado == obtido,
{
}

} // verus!
