use mchose::transport::{ioc, FakeTransport, FalhaFake, Leitura};

const BATERIA: &[u8] = &[0x55, 0x65, 0x46, 0x02];
const FIRMWARE: &[u8] = &[0xAA, 0x01, 0x00, 0x00, 0x01, 0x02];

#[test]
fn fake_devolve_o_pacote_capturado() {
    let mut t = FakeTransport::new().com_leitura(BATERIA.to_vec());
    let mut buf = [0u8; 64];
    let n = match t.read(&mut buf) {
        Leitura::Bytes(n) => n,
        outro => panic!("leitura: {outro:?}"),
    };
    assert_eq!(&buf[..n], BATERIA);
}

#[test]
fn fake_registra_o_que_foi_escrito() {
    let mut t = FakeTransport::new();
    t.write(&[0x55, 0x65, 0x01]).expect("escrita");
    assert_eq!(t.registro(), &vec![vec![0x55, 0x65, 0x01]]);
}

#[test]
fn fake_encena_silencio() {
    let mut t = FakeTransport::new();
    let mut buf = [0u8; 64];
    assert_eq!(t.read(&mut buf), Leitura::Silencio, "silencio deveria nao resolver");
}

#[test]
fn fake_encena_truncamento() {
    let mut t = FakeTransport::new().com_leitura(vec![0x55, 0x65]);
    let mut buf = [0u8; 64];
    assert_eq!(t.read(&mut buf), Leitura::Bytes(2));
}

#[test]
fn fake_encena_o_dongle_sumindo() {
    let mut t = FakeTransport::new().que_some();
    let mut buf = [0u8; 64];
    assert_eq!(t.read(&mut buf), Leitura::Falha(FalhaFake::Sumiu));
}

#[test]
fn fake_responde_o_feature_de_firmware() {
    let mut t = FakeTransport::new().com_feature(0xAA, FIRMWARE.to_vec());
    t.set_feature(&[0xAA, 0x01, 0x01]).expect("set");
    let mut buf = [0u8; 64];
    let n = t.get_feature(0xAA, &mut buf).expect("get");
    assert_eq!(&buf[..n], FIRMWARE);
}

#[test]
fn feature_sem_resposta_registrada_falha() {
    let mut t = FakeTransport::new().com_feature(0xAA, FIRMWARE.to_vec());
    let mut buf = [0u8; 64];
    assert_eq!(t.get_feature(0xED, &mut buf), Err(FalhaFake::SemFeature));
}

#[test]
fn feature_registrada_de_novo_substitui_a_anterior() {
    let mut t = FakeTransport::new()
        .com_feature(0xAA, vec![1, 2, 3])
        .com_feature(0xAA, vec![9]);
    let mut buf = [0u8; 4];
    assert_eq!(t.get_feature(0xAA, &mut buf), Ok(1));
    assert_eq!(buf, [9, 0, 0, 0]);
}

#[test]
fn copia_respeita_o_menor_dos_dois() {
    let mut curto = [7u8; 2];
    assert_eq!(FakeTransport::copia(&mut curto, &[1, 2, 3]), 2);
    assert_eq!(curto, [1, 2]);
    let mut longo = [7u8; 4];
    assert_eq!(FakeTransport::copia(&mut longo, &[1, 2]), 2);
    assert_eq!(longo, [1, 2, 7, 7]);
}

#[test]
fn some_depois_das_leituras_entrega_e_entao_falha() {
    let mut t = FakeTransport::new().com_leitura(BATERIA.to_vec()).que_some_depois_das_leituras();
    let mut buf = [0u8; 64];
    assert_eq!(t.read(&mut buf), Leitura::Bytes(4));
    assert_eq!(t.read(&mut buf), Leitura::Falha(FalhaFake::Sumiu));
    assert_eq!(FakeTransport::sumiu(), FalhaFake::Sumiu);
}

#[test]
fn numeros_dos_ioctls_de_feature_do_hidraw() {
    // HIDIOCSFEATURE(64) and HIDIOCGFEATURE(64) as <linux/hidraw.h> defines them.
    assert_eq!(ioc(0x06, 64), 0xC040_4806);
    assert_eq!(ioc(0x07, 64), 0xC040_4807);
    // The length field keeps 14 bits.
    assert_eq!(ioc(0x07, 0x4000), 0xC000_4807);
}
