use std::collections::BTreeMap;

use mchose::pipewire::{
    achar_no_do_eq, achar_sink_do_fone, argumentos_de_pw_cli, chaves_de_ganho, sink_entre, vid_pid, NoPw, ObjetoPw,
    ParPw, PropsPw,
};

/// A cut of the real `pw-dump` format, with the fields that matter.
const DUMP: &str = r#"[
  { "id": 40, "type": "PipeWire:Interface:Node",
    "info": { "props": {
      "node.name": "alsa_output.usb-C-Media_Electronics_Inc_MCHOSE_V9_PRO_0123456789AB-01.analog-stereo",
      "alsa.components": "USB291d:385d",
      "alsa.card_name": "MCHOSE V9 PRO", "media.class": "Audio/Sink" } } },
  { "id": 41, "type": "PipeWire:Interface:Node",
    "info": { "props": {
      "node.name": "alsa_output.usb-outro-01.analog-stereo",
      "alsa.components": "USB291d:385d",
      "alsa.card_name": "MCHOSE V9 PRO 2", "media.class": "Audio/Sink" } } },
  { "id": 42, "type": "PipeWire:Interface:Node",
    "info": { "props": { "node.name": "mchose_v9_eq" }, "state": "running",
      "params": { "Props": [
        { "volume": 1.0 },
        { "params": [ "eq_band_1:Gain", 0.0, "eq_band_5:Gain", -7.5 ] } ] } } }
]"#;

fn texto(props: &serde_json::Value, chave: &str) -> Option<String> {
    props.get(chave).and_then(|v| v.as_str()).map(str::to_owned)
}

#[test]
fn objetos_sem_props_nao_abortam_a_busca() {
    let com_lixo = DUMP.replacen(
        "[",
        "[ { \"id\": 0, \"type\": \"PipeWire:Interface:Core\" },\n              { \"id\": 61, \"type\": \"PipeWire:Interface:Device\", \"info\": { \"props\":              { \"alsa.components\": \"USB291d:385d\", \"alsa.card_name\": \"MCHOSE V9 PRO\" } } },",
        1,
    );
    assert_eq!(achar_sink_do_fone(&com_lixo).map(|s| s.id), Some(40));
}

#[test]
fn o_microfone_do_mesmo_fone_nao_casa() {
    let so_entrada = DUMP.replace(
        "\"media.class\": \"Audio/Sink\"",
        "\"media.class\": \"Audio/Source\"",
    );
    assert!(achar_sink_do_fone(&so_entrada).is_none());
}

#[test]
fn acha_o_sink_do_fone_pelo_is_supported() {
    let achado = achar_sink_do_fone(DUMP).expect("o V9 PRO esta no dump");
    assert_eq!(achado.id, 40);
    assert!(achado.node_name.contains("MCHOSE_V9_PRO"));
}

#[test]
fn o_irmao_v9_pro_2_nao_casa() {
    let so_o_irmao = DUMP.replace("\"id\": 40", "\"id\": 400").replacen(
        "MCHOSE V9 PRO\"",
        "MCHOSE V9 PRO 2\"",
        1,
    );
    assert!(achar_sink_do_fone(&so_o_irmao).is_none());
}

#[test]
fn dump_sem_o_fone_nao_acha_nada() {
    assert!(achar_sink_do_fone("[]").is_none());
    assert!(achar_sink_do_fone("nao e json").is_none());
}

#[test]
fn sink_sem_id_numerico_nao_interrompe_a_busca() {
    let dump = DUMP.replace("\"id\": 40", "\"id\": \"quarenta\"");
    assert!(achar_sink_do_fone(&dump).is_none());
}

#[test]
fn id_grande_e_cortado_para_32_bits_como_o_cast() {
    let dump = DUMP.replace("\"id\": 40", "\"id\": 4294967336");
    assert_eq!(achar_sink_do_fone(&dump).map(|s| s.id), Some(40));
}

#[test]
fn alsa_components_vira_vid_e_pid() {
    assert_eq!(vid_pid("USB291d:385d"), Some((0x291D, 0x385D)));
    assert_eq!(vid_pid("USB 291d : 385d "), Some((0x291D, 0x385D)));
    assert_eq!(vid_pid("usb291d:385d"), None);
    assert_eq!(vid_pid("USB291d"), None);
    assert_eq!(vid_pid("USB291d:385d:1"), None);
    assert_eq!(vid_pid("USB10000:1"), None);
    assert_eq!(vid_pid("PCI291d:385d"), None);
}

#[test]
fn o_comando_de_escrita_nao_passa_por_shell() {
    let args = argumentos_de_pw_cli(42, 5, &format!("{:.2}", -7.5f32)).expect("entrada valida");
    assert_eq!(args[0], "s");
    assert_eq!(args[1], "42");
    assert_eq!(args[2], "Props");
    assert!(args[3].contains("eq_band_5:Gain"));
    assert!(args[3].contains("-7.5"));
    assert_eq!(args.len(), 4);
    assert_eq!(args[3], "{ params = [ \"eq_band_5:Gain\" -7.50 ] }");
}

#[test]
fn banda_fora_de_faixa_nao_gera_comando() {
    assert!(argumentos_de_pw_cli(1, 0, "0.00").is_none(), "banda 0");
    assert!(argumentos_de_pw_cli(1, 99, "0.00").is_none(), "banda 99");
    assert!(argumentos_de_pw_cli(1, 11, "0.00").is_none(), "banda 11");
    assert!(argumentos_de_pw_cli(1, 10, "6.00").is_some(), "caso valido");
    assert_eq!(argumentos_de_pw_cli(4294967295, 1, "0.00").expect("valido")[1], "4294967295");
}

/// Our equalizer's node as the applet reads it: id, gains by name, running.
struct Eq {
    id: u32,
    ganhos: BTreeMap<String, f32>,
    ativo: bool,
}

/// Reads a `pw-dump` into the records of the equalizer's search, keeps the
/// numbers aside, and builds the gains of the node the library picks.
fn eq_do_dump(dump: &str) -> Option<Eq> {
    let valor: serde_json::Value = serde_json::from_str(dump).ok()?;
    let mut nos = Vec::new();
    let mut numeros = Vec::new();
    for o in valor.as_array()? {
        let info = o.get("info");
        let mut pares = Vec::new();
        let mut valores = Vec::new();
        let lista = info.and_then(|i| i.get("params")).and_then(|p| p.get("Props")).and_then(|p| p.as_array());
        for bloco in lista.into_iter().flatten() {
            let Some(itens) = bloco.get("params").and_then(|p| p.as_array()) else { continue };
            for par in itens.chunks(2) {
                let numero = par.get(1).and_then(serde_json::Value::as_f64);
                pares.push(ParPw { chave: par.first().and_then(|c| c.as_str()).map(str::to_owned), numero: numero.is_some() });
                valores.push(numero.unwrap_or_default());
            }
        }
        nos.push(NoPw {
            id: o.get("id").and_then(serde_json::Value::as_u64),
            node_name: info.and_then(|i| i.get("props")).and_then(|p| texto(p, "node.name")),
            estado: info.and_then(|i| texto(i, "state")),
            pares,
        });
        numeros.push(valores);
    }
    let achado = achar_no_do_eq(&nos)?;
    let mut ganhos = BTreeMap::new();
    for i in achado.ganhos {
        let chave = nos[achado.posicao].pares[i].chave.clone().expect("a gain has a name");
        ganhos.insert(chave, numeros[achado.posicao][i] as f32);
    }
    Some(Eq { id: achado.id, ganhos, ativo: achado.ativo })
}

fn par(chave: Option<&str>, numero: bool) -> ParPw {
    ParPw { chave: chave.map(str::to_owned), numero }
}

#[test]
fn acha_o_no_do_eq_e_le_os_ganhos() {
    let eq = eq_do_dump(DUMP).expect("o eq esta no dump");
    assert_eq!(eq.id, 42);
    assert_eq!(eq.ganhos.get("eq_band_5:Gain"), Some(&-7.5));
    assert_eq!(eq.ganhos.get("eq_band_1:Gain"), Some(&0.0));
}

#[test]
fn o_estado_do_no_e_lido() {
    let eq = eq_do_dump(DUMP).expect("presente");
    assert!(eq.ativo, "running conta como ativo");
}

#[test]
fn no_suspenso_nao_conta_como_ativo() {
    let suspenso = DUMP.replace("\"state\": \"running\"", "\"state\": \"suspended\"");
    let eq = eq_do_dump(&suspenso).expect("presente");
    assert!(!eq.ativo);
}

#[test]
fn no_do_eq_sem_id_nao_interrompe_a_busca() {
    let sem_id = DUMP.replace("\"id\": 42", "\"id\": \"quarenta e dois\"");
    assert!(eq_do_dump(&sem_id).is_none());
    let nos = vec![
        NoPw { id: None, node_name: Some("mchose_v9_eq".to_owned()), estado: None, pares: vec![] },
        NoPw { id: Some(7), node_name: Some("outro".to_owned()), estado: None, pares: vec![] },
        NoPw { id: Some(43), node_name: Some("mchose_v9_eq".to_owned()), estado: Some("idle".to_owned()), pares: vec![] },
    ];
    let achado = achar_no_do_eq(&nos).expect("o segundo eq tem id");
    assert_eq!((achado.posicao, achado.id, achado.ativo), (2, 43, false));
    assert!(achado.ganhos.is_empty());
}

#[test]
fn dump_sem_o_eq_nao_acha_no() {
    assert!(eq_do_dump("[]").is_none());
    assert!(eq_do_dump("nao e json").is_none());
    let outro_nome = DUMP.replace("mchose_v9_eq", "mchose_v9_eq2");
    assert!(eq_do_dump(&outro_nome).is_none());
}

#[test]
fn so_controles_gain_seguidos_de_numero_sao_ganhos() {
    let pares = vec![
        par(Some("eq_band_1:Freq"), true),
        par(Some("eq_band_2:Gain"), false),
        par(None, true),
        par(Some("eq_band_3:Gain"), true),
        par(Some(":Gain"), true),
        par(Some("Gain"), true),
        par(Some("eq_band_4:gain"), true),
        par(Some("eq_band_3:Gain"), true),
    ];
    assert_eq!(chaves_de_ganho(&pares), vec![3, 4, 7]);
    assert!(chaves_de_ganho(&[]).is_empty());
}

#[test]
fn o_ultimo_valor_de_um_ganho_repetido_vale() {
    let repetido = DUMP.replace(
        "[ \"eq_band_1:Gain\", 0.0, \"eq_band_5:Gain\", -7.5 ]",
        "[ \"eq_band_1:Gain\", 0.0, \"eq_band_1:Gain\", 2.5, \"eq_band_9:Gain\" ]",
    );
    let eq = eq_do_dump(&repetido).expect("presente");
    assert_eq!(eq.ganhos.get("eq_band_1:Gain"), Some(&2.5));
    assert_eq!(eq.ganhos.len(), 1);
}

#[test]
fn id_do_eq_grande_e_cortado_para_32_bits() {
    let grande = DUMP.replace("\"id\": 42", "\"id\": 4294967338");
    assert_eq!(eq_do_dump(&grande).map(|e| e.id), Some(42));
}

fn objeto(id: Option<u64>, classe: &str, comp: &str, card: &str, nome: &str) -> ObjetoPw {
    ObjetoPw {
        id,
        props: Some(PropsPw {
            media_class: Some(classe.to_owned()),
            alsa_components: Some(comp.to_owned()),
            alsa_card_name: Some(card.to_owned()),
            node_name: Some(nome.to_owned()),
        }),
    }
}

#[test]
fn busca_entre_registros_pega_o_primeiro_que_casa() {
    let nos = vec![
        ObjetoPw { id: Some(1), props: None },
        objeto(Some(2), "Audio/Source", "USB291d:385d", "MCHOSE V9 PRO", "mic"),
        objeto(None, "Audio/Sink", "USB291d:385d", "MCHOSE V9 PRO", "sem_id"),
        objeto(Some(3), "Audio/Sink", "USB291d:385d", "MCHOSE V9 PRO 2", "irmao"),
        objeto(Some(4), "Audio/Sink", "USB291d:385d", "MCHOSE V9 PRO", "este"),
        objeto(Some(5), "Audio/Sink", "USB291d:385d", "MCHOSE V9 PRO", "depois"),
    ];
    let s = sink_entre(&nos).expect("o quinto casa");
    assert_eq!((s.id, s.node_name.as_str()), (4, "este"));
    assert!(sink_entre(&nos[..4]).is_none());
}

#[test]
fn dump_que_nao_e_lista_nao_acha_nada() {
    assert!(achar_sink_do_fone("{}").is_none());
    assert!(achar_sink_do_fone("").is_none());
    assert!(achar_sink_do_fone("[1, \"x\", null]").is_none());
}
