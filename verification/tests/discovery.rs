use mchose::discovery::{find_device, identifica, parse_dev, parse_hid_id, reconhece, EntradaSysfs, Found};

const V9_PRO: &str = "DRIVER=hid-generic\n\
    HID_ID=0003:0000291D:0000385D\n\
    HID_NAME=C-Media Electronics Inc MCHOSE V9 PRO\n\
    HID_UNIQ=0123456789AB\n";

const S9_PRO: &str = "HID_ID=0003:0000291D:0000385D\n\
    HID_NAME=C-Media Electronics Inc MCHOSE S9 PRO\n";

const TECLADO: &str = "HID_ID=0003:0000320F:00005000\n\
    HID_NAME=Evision RGB Keyboard\n";

/// The entries of a fake `/sys/class/hidraw`: one per hidraw, each with its
/// `uevent` and a `dev` of `239:<position>`.
fn sysfs(entradas: &[(&str, &str)]) -> Vec<EntradaSysfs> {
    entradas
        .iter()
        .enumerate()
        .map(|(i, (nome, uevent))| EntradaSysfs {
            nome: Some((*nome).to_owned()),
            uevent: Some((*uevent).to_owned()),
            dev: Some(format!("239:{i}\n")),
        })
        .collect()
}

#[test]
fn acha_o_v9_pro_entre_outros_dispositivos() {
    let dir = sysfs(&[("hidraw0", TECLADO), ("hidraw5", V9_PRO)]);
    let achado = find_device(&dir).expect("V9 PRO presente");
    assert_eq!(achado.nome, "hidraw5");
}

#[test]
fn ignora_irmao_de_mesmo_vid_pid() {
    let dir = sysfs(&[("hidraw3", S9_PRO)]);
    assert!(find_device(&dir).is_none());
}

#[test]
fn uevent_malformado_ou_ausente_nao_entra_em_panico() {
    let dir = sysfs(&[
        ("hidraw0", "lixo sem campo nenhum\n"),
        ("hidraw1", "HID_ID=nao-e-hexadecimal\nHID_NAME=X\n"),
        ("hidraw2", "HID_ID=0003:0000291D\n"),
    ]);
    assert!(find_device(&dir).is_none());
}

#[test]
fn arvore_vazia_nao_acha_nada() {
    let dir = sysfs(&[]);
    assert!(find_device(&dir).is_none());
}

#[test]
fn devolve_o_caminho_do_device_node_nao_o_do_sysfs() {
    let dir = sysfs(&[("hidraw5", V9_PRO)]);
    let achado = find_device(&dir).expect("presente");
    assert_eq!(achado.caminho(), "/dev/hidraw5");
    assert_eq!(achado.rdev, libc::makedev(239, 0));
}

#[test]
fn a_escolha_nao_depende_da_ordem_do_diretorio() {
    let a = sysfs(&[("hidraw7", V9_PRO), ("hidraw2", V9_PRO)]);
    let b = sysfs(&[("hidraw2", V9_PRO), ("hidraw7", V9_PRO)]);
    assert_eq!(find_device(&a).map(|f| f.nome), Some("hidraw2".to_owned()));
    assert_eq!(find_device(&b).map(|f| f.nome), Some("hidraw2".to_owned()));
}

#[test]
fn entrada_sem_nome_uevent_ou_dev_legivel_e_pulada() {
    let dir = vec![
        EntradaSysfs { nome: None, uevent: Some(V9_PRO.to_owned()), dev: Some("239:1".to_owned()) },
        EntradaSysfs { nome: Some("hidraw1".to_owned()), uevent: None, dev: Some("239:1".to_owned()) },
        EntradaSysfs { nome: Some("hidraw2".to_owned()), uevent: Some(V9_PRO.to_owned()), dev: None },
        EntradaSysfs { nome: Some("hidraw3".to_owned()), uevent: Some(V9_PRO.to_owned()), dev: Some("lixo".to_owned()) },
        EntradaSysfs { nome: Some("hidraw9".to_owned()), uevent: Some(V9_PRO.to_owned()), dev: Some("239:9".to_owned()) },
    ];
    assert_eq!(
        find_device(&dir),
        Some(Found { nome: "hidraw9".to_owned(), rdev: libc::makedev(239, 9) })
    );
}

#[test]
fn identifica_le_id_e_nome_e_a_ultima_linha_vence() {
    let (vid, pid, nome) = identifica(V9_PRO).expect("campos presentes");
    assert_eq!((vid, pid), (0x291D, 0x385D));
    assert_eq!(nome, b"C-Media Electronics Inc MCHOSE V9 PRO");
    let dois = "HID_NAME=A\nHID_ID=0003:1:2\nHID_NAME=B\r\n";
    assert_eq!(identifica(dois), Some((1, 2, &b"B"[..])));
    let estragado = "HID_ID=0003:1:2\nHID_NAME=B\nHID_ID=lixo\n";
    assert_eq!(identifica(estragado), None);
    assert_eq!(identifica(""), None);
    assert_eq!(identifica("HID_ID=0003:1:2"), None);
}

#[test]
fn identifica_so_tira_o_retorno_de_carro_antes_de_quebra_de_linha() {
    assert_eq!(identifica("HID_ID=0003:1:2\nHID_NAME=X\r"), Some((1, 2, &b"X\r"[..])));
    assert_eq!(identifica("HID_ID=0003:1:2\r\nHID_NAME=X\r\n"), Some((1, 2, &b"X"[..])));
}

#[test]
fn hid_id_com_tres_campos_hexadecimais() {
    assert_eq!(parse_hid_id("0003:0000291D:0000385D"), Some((0x291D, 0x385D)));
    assert_eq!(parse_hid_id("0003: 291d :\t385d "), Some((0x291D, 0x385D)));
    assert_eq!(parse_hid_id("x:+291D:+385D"), Some((0x291D, 0x385D)));
    for ruim in ["0003:291D", "0003:291D:385D:1", "0003::385D", "0003:291G:385D", "0003:-1:2", "0003:+:2", "0003:100000000:1"] {
        assert_eq!(parse_hid_id(ruim), None, "{ruim:?}");
    }
}

#[test]
fn hid_id_acima_de_16_bits_e_cortado_como_o_cast() {
    assert_eq!(parse_hid_id("0003:0001291D:FFFF385D"), Some((0x291D, 0x385D)));
}

#[test]
fn hid_id_aceita_espaco_unicode_como_o_trim() {
    assert_eq!(parse_hid_id("0003:\u{00A0}291D\u{3000}:385D\u{2003}"), Some((0x291D, 0x385D)));
    assert_eq!(parse_hid_id("0003:\u{0085}291D\u{1680}:\u{202F}385D\u{205F}"), Some((0x291D, 0x385D)));
    assert_eq!(parse_hid_id("0003:\u{00A1}291D:385D"), None);
}

#[test]
fn dev_do_sysfs_vira_rdev() {
    assert_eq!(parse_dev("239:0\n"), Some(libc::makedev(239, 0)));
    assert_eq!(parse_dev("  239:5  "), Some(libc::makedev(239, 5)));
    assert_eq!(parse_dev("+239:+1"), Some(libc::makedev(239, 1)));
    assert_eq!(parse_dev("4095:1048575"), Some(libc::makedev(4095, 1_048_575)));
    assert_eq!(parse_dev("239"), None);
    assert_eq!(parse_dev("239:x"), None);
    assert_eq!(parse_dev("239: 1"), None);
    assert_eq!(parse_dev("239:1:2"), None);
    assert_eq!(parse_dev("4294967296:1"), None);
}

#[test]
fn reconhece_so_o_v9_pro() {
    assert!(reconhece(V9_PRO));
    assert!(!reconhece(S9_PRO));
    assert!(!reconhece(TECLADO));
    assert!(!reconhece("HID_ID=0003:0000291D:0000385D\nHID_NAME=MCHOSE V9 PRO 2\n"));
}
