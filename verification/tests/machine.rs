use mchose::battery::ChargeState;
use mchose::firmware::FirmwareVersion;
use mchose::machine::{versao_do_feature, Acao, DeviceEvent, Passo, Sessao};
use mchose::request::{battery_request, firmware_request, FirmwareTarget, REPORT_FIRMWARE, REPORT_LEN};
use mchose::transport::{FakeTransport, Leitura};

const BATERIA: &[u8] = &[0x55, 0x65, 0x46, 0x02];
const FW_DONGLE: &[u8] = &[0xAA, 0x01, 0x00, 0x00, 0x01, 0x02];
const TECLA_MIDIA: &[u8] = &[0x06, 0x01, 0x00];

fn versao(t: &mut FakeTransport, alvo: FirmwareTarget) -> Option<FirmwareVersion> {
    t.set_feature(&firmware_request(alvo)).ok()?;
    let mut buf = [0u8; REPORT_LEN];
    let n = t.get_feature(REPORT_FIRMWARE, &mut buf).ok()?;
    versao_do_feature(&buf, n)
}

/// Runs a session over the scripted transport, in the order the device loop
/// waits: a pending read first, then the deadline, then a request. `pedidos`
/// requests are waiting in the handle; `alca_viva` says whether the handle is
/// kept after them. Stops when the session ends or would wait forever.
fn colher(mut t: FakeTransport, mut pedidos: usize, alca_viva: bool) -> (Vec<DeviceEvent>, FakeTransport) {
    let mut eventos = Vec::new();
    let (mut s, mut acao) = Sessao::abrir();
    for _ in 0..1000 {
        let mut buf = [0u8; REPORT_LEN];
        let (e, a) = match acao {
            Acao::QueryFirmware(alvo) => {
                let v = versao(&mut t, alvo);
                s.on_step(Passo::Firmware(v), &buf)
            }
            Acao::WriteBatteryRequest => s.on_write(t.write(&battery_request()).is_ok()),
            Acao::Continue => {
                let passo = match t.read(&mut buf) {
                    Leitura::Bytes(n) => Passo::Read(n),
                    Leitura::Falha(_) => Passo::Died,
                    Leitura::Silencio => {
                        if s.prazo_armado() {
                            Passo::Deadline
                        } else if s.escuta_pedidos() && pedidos > 0 {
                            pedidos -= 1;
                            Passo::Request
                        } else if s.escuta_pedidos() && !alca_viva {
                            Passo::RequestsClosed
                        } else {
                            break;
                        }
                    }
                };
                s.on_step(passo, &buf)
            }
            Acao::End => break,
        };
        eventos.extend(e);
        acao = a;
    }
    (eventos, t)
}

/// A session past its opening, with both versions unknown and the connection
/// query written.
fn aberta() -> Sessao {
    let (mut s, _) = Sessao::abrir();
    s.on_step(Passo::Firmware(None), &[]);
    s.on_step(Passo::Firmware(None), &[]);
    s
}

#[test]
fn pacote_real_vira_leitura() {
    let t = FakeTransport::new()
        .com_feature(0xAA, FW_DONGLE.to_vec())
        .com_leitura(BATERIA.to_vec())
        .que_some_depois_das_leituras();
    let (ev, _) = colher(t, 0, false);
    assert!(ev.iter().any(|e| matches!(
        e,
        DeviceEvent::Battery(b) if b.percent == 70 && b.state == ChargeState::Discharging
    )));
}

#[test]
fn conexao_publica_o_firmware() {
    let t = FakeTransport::new()
        .com_feature(0xAA, FW_DONGLE.to_vec())
        .que_some_depois_das_leituras();
    let (ev, _) = colher(t, 0, false);
    assert_eq!(
        ev.first(),
        Some(&DeviceEvent::Connected {
            dongle: Some(FirmwareVersion::new([0, 0, 1, 2])),
            headset: Some(FirmwareVersion::new([0, 0, 1, 2])),
        })
    );
}

#[test]
fn sem_resposta_no_prazo_vira_no_response() {
    let t = FakeTransport::new().com_feature(0xAA, FW_DONGLE.to_vec());
    let (vistos, _) = colher(t, 0, true);
    assert!(vistos.contains(&DeviceEvent::NoResponse), "vistos: {vistos:?}");
    assert_eq!(vistos.iter().filter(|e| **e == DeviceEvent::NoResponse).count(), 1);
}

#[test]
fn trafego_alheio_nao_produz_evento() {
    let t = FakeTransport::new()
        .com_feature(0xAA, FW_DONGLE.to_vec())
        .com_leitura(TECLA_MIDIA.to_vec())
        .com_leitura(BATERIA.to_vec())
        .que_some_depois_das_leituras();
    let (ev, _) = colher(t, 0, false);
    let leituras = ev
        .iter()
        .filter(|e| matches!(e, DeviceEvent::Battery(_) | DeviceEvent::Rejected(_)))
        .count();
    assert_eq!(leituras, 1, "a tecla de midia nao pode virar evento");
}

#[test]
fn pacote_invalido_do_nosso_canal_carrega_os_bytes() {
    let ruim = vec![0x55, 0x65, 200, 0x02];
    let t = FakeTransport::new()
        .com_feature(0xAA, FW_DONGLE.to_vec())
        .com_leitura(ruim.clone())
        .que_some_depois_das_leituras();
    let (ev, _) = colher(t, 0, false);
    assert!(ev.contains(&DeviceEvent::Rejected(ruim)));
}

#[test]
fn transporte_que_some_encerra_a_sessao_com_disconnected() {
    let t = FakeTransport::new().que_some();
    let (ev, _) = colher(t, 0, false);
    assert_eq!(ev.last(), Some(&DeviceEvent::Disconnected));
    assert_eq!(
        ev.first(),
        Some(&DeviceEvent::Connected { dongle: None, headset: None })
    );
}

#[test]
fn consulta_sob_demanda_produz_leitura_nova() {
    let t = FakeTransport::new()
        .com_feature(0xAA, FW_DONGLE.to_vec())
        .com_leitura(BATERIA.to_vec())
        .com_leitura(BATERIA.to_vec())
        .que_some_depois_das_leituras();
    let (eventos, _) = colher(t, 1, false);
    let leituras = eventos
        .iter()
        .filter(|e| matches!(e, DeviceEvent::Battery(_)))
        .count();
    assert_eq!(leituras, 2, "conexao mais a consulta sob demanda");
}

#[test]
fn em_estado_estacionario_nenhuma_consulta_e_emitida() {
    let t = FakeTransport::new()
        .com_feature(0xAA, FW_DONGLE.to_vec())
        .com_leitura(BATERIA.to_vec())
        .que_some_depois_das_leituras();
    let (_, t) = colher(t, 0, false);
    let consultas_bateria = t.registro().iter().filter(|w| w.first() == Some(&0x55)).count();
    assert_eq!(consultas_bateria, 1, "so a consulta de conexao");
}

#[test]
fn pedido_em_silencio_escreve_nova_consulta_e_rearma_o_prazo() {
    let t = FakeTransport::new().com_feature(0xAA, FW_DONGLE.to_vec());
    let (ev, t) = colher(t, 1, true);
    let consultas = t.registro().iter().filter(|w| w.first() == Some(&0x55)).count();
    assert_eq!(consultas, 2, "conexao e pedido");
    assert_eq!(ev.iter().filter(|e| **e == DeviceEvent::NoResponse).count(), 2);
}

#[test]
fn alca_fechada_nao_encerra_a_sessao() {
    let mut s = aberta();
    let (e, a) = s.on_step(Passo::RequestsClosed, &[]);
    assert_eq!(e, None);
    assert_eq!(a, Acao::Continue);
    assert!(!s.escuta_pedidos());
}

#[test]
fn leitura_maior_que_o_buffer_e_ignorada() {
    let mut s = aberta();
    let (e, a) = s.on_step(Passo::Read(10), BATERIA);
    assert_eq!(e, None);
    assert_eq!(a, Acao::Continue);
}

#[test]
fn rejeicao_carrega_so_os_quatro_bytes_delimitados() {
    let mut s = aberta();
    let pacote = [0x55, 0x65, 200, 0x02, 9, 9, 9];
    let (e, _) = s.on_step(Passo::Read(7), &pacote);
    assert_eq!(e, Some(DeviceEvent::Rejected(vec![0x55, 0x65, 200, 0x02])));
}

#[test]
fn escrita_que_falha_encerra_com_disconnected() {
    let mut s = aberta();
    assert_eq!(s.on_write(false), (Some(DeviceEvent::Disconnected), Acao::End));
    assert_eq!(s.on_write(true), (None, Acao::Continue));
    assert!(s.prazo_armado());
}

#[test]
fn versao_do_feature_recusa_resposta_curta_ou_alheia() {
    assert_eq!(versao_do_feature(FW_DONGLE, 6), Some(FirmwareVersion::new([0, 0, 1, 2])));
    assert_eq!(versao_do_feature(FW_DONGLE, 5), None);
    assert_eq!(versao_do_feature(FW_DONGLE, 7), None);
    assert_eq!(versao_do_feature(&[0u8; 64], 64), None);
}

#[test]
fn dongle_que_some_e_volta_produz_leitura_nas_duas_vidas() {
    let fake = || {
        FakeTransport::new()
            .com_feature(0xAA, FW_DONGLE.to_vec())
            .com_leitura(BATERIA.to_vec())
            .que_some_depois_das_leituras()
    };
    // One session per life of the dongle, the same handle across them.
    let mut eventos = Vec::new();
    for t in [fake(), fake()] {
        let (ev, _) = colher(t, 0, false);
        eventos.extend(ev);
    }
    let leituras = eventos
        .iter()
        .filter(|e| matches!(e, DeviceEvent::Battery(_)))
        .count();
    assert_eq!(leituras, 2, "uma leitura por vida do dongle");
    let quedas = eventos
        .iter()
        .filter(|e| matches!(e, DeviceEvent::Disconnected))
        .count();
    assert_eq!(quedas, 2, "cada vida termina com Disconnected");
}

#[test]
fn abertura_consulta_dongle_depois_fone_e_uma_bateria() {
    let t = FakeTransport::new()
        .com_feature(0xAA, FW_DONGLE.to_vec())
        .com_leitura(BATERIA.to_vec())
        .que_some_depois_das_leituras();
    let (ev, t) = colher(t, 0, false);
    assert_eq!(
        t.registro().clone(),
        vec![
            firmware_request(FirmwareTarget::Dongle).to_vec(),
            firmware_request(FirmwareTarget::Headset).to_vec(),
            battery_request().to_vec(),
        ]
    );
    assert!(matches!(ev.first(), Some(DeviceEvent::Connected { .. })));
    assert_eq!(ev.last(), Some(&DeviceEvent::Disconnected));
}

#[test]
fn fone_em_silencio_com_um_pedido_escreve_duas_consultas() {
    let t = FakeTransport::new().com_feature(0xAA, FW_DONGLE.to_vec());
    let (ev, t) = colher(t, 1, true);
    assert_eq!(
        t.registro().clone(),
        vec![
            firmware_request(FirmwareTarget::Dongle).to_vec(),
            firmware_request(FirmwareTarget::Headset).to_vec(),
            battery_request().to_vec(),
            battery_request().to_vec(),
        ]
    );
    let fw = Some(FirmwareVersion::new([0, 0, 1, 2]));
    assert_eq!(
        ev,
        vec![
            DeviceEvent::Connected { dongle: fw, headset: fw },
            DeviceEvent::NoResponse,
            DeviceEvent::NoResponse,
        ]
    );
}

#[test]
fn abertura_passo_a_passo() {
    let fw = Some(FirmwareVersion::new([0, 0, 1, 2]));
    let (mut s, a) = Sessao::abrir();
    assert_eq!(a, Acao::QueryFirmware(FirmwareTarget::Dongle));
    assert!(!s.prazo_armado());
    // Anything but the answer leaves the query owed.
    assert_eq!(s.on_step(Passo::Deadline, &[]), (None, Acao::QueryFirmware(FirmwareTarget::Dongle)));
    assert_eq!(s.on_step(Passo::Firmware(fw), &[]), (None, Acao::QueryFirmware(FirmwareTarget::Headset)));
    assert_eq!(
        s.on_step(Passo::Firmware(None), &[]),
        (Some(DeviceEvent::Connected { dongle: fw, headset: None }), Acao::WriteBatteryRequest)
    );
    assert_eq!(s.on_write(true), (None, Acao::Continue));
    assert!(s.prazo_armado());
    // Once open, a stray firmware answer changes nothing.
    assert_eq!(s.on_step(Passo::Firmware(fw), &[]), (None, Acao::Continue));
    assert_eq!(s.on_step(Passo::Request, &[]), (None, Acao::WriteBatteryRequest));
}

#[test]
fn transporte_morto_na_abertura_encerra() {
    let (mut s, _) = Sessao::abrir();
    assert_eq!(s.on_step(Passo::Died, &[]), (Some(DeviceEvent::Disconnected), Acao::End));
}

#[test]
fn pedido_antes_do_prazo_gera_uma_consulta_e_um_no_response() {
    let fw = Some(FirmwareVersion::new([0, 0, 1, 2]));
    let (mut s, mut a) = Sessao::abrir();
    let mut escritas = Vec::new();
    let mut eventos = Vec::new();
    // The opening, then a request taken while the deadline is still armed,
    // then the deadline, then a silent wait with nothing armed.
    let mut entradas = vec![Passo::Firmware(fw), Passo::Firmware(fw), Passo::Request, Passo::Deadline].into_iter();
    loop {
        let (e, proxima) = match a {
            Acao::QueryFirmware(alvo) => {
                escritas.push(firmware_request(alvo).to_vec());
                s.on_step(entradas.next().expect("versao"), &[])
            }
            Acao::WriteBatteryRequest => {
                escritas.push(battery_request().to_vec());
                s.on_write(true)
            }
            Acao::Continue => match entradas.next() {
                Some(p) => s.on_step(p, &[]),
                None => break,
            },
            Acao::End => break,
        };
        eventos.extend(e);
        a = proxima;
    }
    assert_eq!(
        escritas,
        vec![
            firmware_request(FirmwareTarget::Dongle).to_vec(),
            firmware_request(FirmwareTarget::Headset).to_vec(),
            battery_request().to_vec(),
            battery_request().to_vec(),
        ]
    );
    assert_eq!(eventos, vec![DeviceEvent::Connected { dongle: fw, headset: fw }, DeviceEvent::NoResponse]);
    assert!(!s.prazo_armado());
}
