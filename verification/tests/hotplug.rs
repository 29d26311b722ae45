use mchose::hotplug::{Busca, Sondagem};
use mchose::machine::DeviceEvent;

#[test]
fn ausencia_e_avisada_uma_vez_por_busca() {
    let mut b = Busca::new();
    assert_eq!(b.on_probe(Sondagem::Ausente), (Some(DeviceEvent::NoDevice), false));
    assert_eq!(b.on_probe(Sondagem::Ausente), (None, false));
    assert_eq!(b.on_probe(Sondagem::Ausente), (None, false));
}

#[test]
fn sem_permissao_e_avisado_uma_vez_e_nao_vira_sem_dongle() {
    let mut b = Busca::new();
    let p = Sondagem::SemPermissao { path: "/dev/hidraw5".to_owned() };
    assert_eq!(
        b.on_probe(p.clone()),
        (Some(DeviceEvent::PermissionDenied { path: "/dev/hidraw5".to_owned() }), false)
    );
    assert_eq!(b.on_probe(p), (None, false));
    assert_eq!(b.on_probe(Sondagem::Ausente), (Some(DeviceEvent::NoDevice), false));
}

#[test]
fn transporte_so_e_usado_com_o_mesmo_rdev() {
    let mut b = Busca::new();
    assert_eq!(b.on_probe(Sondagem::Aberto { esperado: 10, obtido: 11 }), (None, false));
    assert_eq!(b.on_probe(Sondagem::Falhou), (None, false));
    assert_eq!(b.on_probe(Sondagem::Aberto { esperado: 10, obtido: 10 }), (None, true));
}

#[test]
fn busca_nova_avisa_de_novo() {
    let mut b = Busca::new();
    b.on_probe(Sondagem::Ausente);
    let mut outra = Busca::new();
    assert_eq!(outra.on_probe(Sondagem::Ausente), (Some(DeviceEvent::NoDevice), false));
    assert!(b.avisou_ausencia && !b.avisou_permissao);
}
