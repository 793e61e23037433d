//! Cartas, baralho, validador de jogos e apoio de apresentacao.

use buracao_core::baralho::{Baralho, Carta, Naipe, Valor, Verso};
use buracao_core::regras::{tem_coringa, validar_jogo};
use buracao_core::visual::{
    analisar_status_canastra, carta_para_asset, descobrir_naipe_dominante, get_back_path,
    get_card_path, get_relative_position, get_selection_color, ler_indice, ler_varios_indices,
    organizar_para_exibicao, verso_para_asset, StatusCanastra,
};

fn carta(naipe: Naipe, valor: Valor) -> Carta {
    Carta { naipe, valor }
}

fn joker() -> Carta {
    carta(Naipe::Nenhum, Valor::Joker)
}

#[test]
fn pontos_das_cartas() {
    assert_eq!(joker().pontos(), 20);
    assert_eq!(carta(Naipe::Copas, Valor::As).pontos(), 10);
    assert_eq!(carta(Naipe::Paus, Valor::Sete).pontos(), 10);
}

#[test]
fn predicados_de_carta() {
    assert!(carta(Naipe::Copas, Valor::Dois).eh_coringa());
    assert!(joker().eh_coringa());
    assert!(!carta(Naipe::Copas, Valor::Tres).eh_coringa());
    assert!(carta(Naipe::Copas, Valor::Tres).eh_tres_vermelho());
    assert!(carta(Naipe::Ouros, Valor::Tres).eh_tres_vermelho());
    assert!(!carta(Naipe::Paus, Valor::Tres).eh_tres_vermelho());
    assert!(carta(Naipe::Paus, Valor::Tres).eh_tres_preto());
    assert!(carta(Naipe::Espadas, Valor::Tres).trava_o_lixo());
    assert!(carta(Naipe::Ouros, Valor::Dois).trava_o_lixo());
    assert!(joker().trava_o_lixo());
    assert!(!carta(Naipe::Ouros, Valor::Sete).trava_o_lixo());
    assert!(joker().eh_joker());
    assert!(!carta(Naipe::Copas, Valor::Dois).eh_joker());
}

#[test]
fn indices_de_sequencia() {
    assert_eq!(Valor::As.indice_sequencia(), 1);
    assert_eq!(Valor::Rei.indice_sequencia(), 13);
    assert_eq!(Valor::Joker.indice_sequencia(), 0);
    assert_eq!(carta(Naipe::Copas, Valor::As).valor_numerico_sequencia(), 14);
    assert_eq!(carta(Naipe::Copas, Valor::Tres).valor_numerico_sequencia(), 0);
    assert_eq!(carta(Naipe::Copas, Valor::Quatro).valor_numerico_sequencia(), 4);
}

#[test]
fn baralho_completo_deterministico() {
    let b = Baralho::new();
    assert_eq!(b.cartas.len(), 108);
    assert_eq!(b.cartas[0], carta(Naipe::Copas, Valor::As));
    assert_eq!(b.cartas[13], carta(Naipe::Ouros, Valor::As));
    assert_eq!(b.cartas[52], joker());
    assert_eq!(b.cartas[53], joker());
    assert_eq!(b.cartas[54], carta(Naipe::Copas, Valor::As));
    let jokers = b.cartas.iter().filter(|c| c.valor == Valor::Joker).count();
    assert_eq!(jokers, 4);
    let tres_vermelhos = b.cartas.iter().filter(|c| c.eh_tres_vermelho()).count();
    assert_eq!(tres_vermelhos, 4);
}

#[test]
fn embaralhar_preserva_as_cartas() {
    let mut b = Baralho::new();
    b.shuffle();
    assert_eq!(b.cartas.len(), 108);
    let mut original = Baralho::new().cartas;
    let mut depois = b.cartas.clone();
    let chave = |c: &Carta| (format!("{:?}", c.naipe), format!("{:?}", c.valor));
    original.sort_by_key(chave);
    depois.sort_by_key(chave);
    assert_eq!(original, depois);
}

#[test]
fn comprar_tira_do_topo() {
    let mut b = Baralho::new();
    let topo = b.cartas[b.cartas.len() - 1];
    assert_eq!(b.restantes(), 108);
    assert_eq!(b.comprar(), Some(topo));
    assert_eq!(b.restantes(), 107);
}

#[test]
fn corrida_com_lacuna_coberta_pelo_coringa() {
    // [Joker, 6d, 8d, 9d]: lacuna de 1 entre o 6 e o 8, coberta pelo Joker.
    let jogo = vec![
        joker(),
        carta(Naipe::Ouros, Valor::Seis),
        carta(Naipe::Ouros, Valor::Oito),
        carta(Naipe::Ouros, Valor::Nove),
    ];
    assert!(validar_jogo(&jogo));
}

#[test]
fn corrida_com_lacuna_grande_demais() {
    // [Joker, 6d, 9d]: lacuna de 2, so um coringa disponivel.
    let jogo = vec![
        joker(),
        carta(Naipe::Ouros, Valor::Seis),
        carta(Naipe::Ouros, Valor::Nove),
    ];
    assert!(!validar_jogo(&jogo));
}

#[test]
fn corrida_rejeita_dois_coringas() {
    let jogo = vec![
        joker(),
        carta(Naipe::Copas, Valor::Dois),
        carta(Naipe::Paus, Valor::Quatro),
    ];
    assert!(!validar_jogo(&jogo));
}

#[test]
fn corrida_rejeita_naipes_misturados() {
    let jogo = vec![
        carta(Naipe::Paus, Valor::Quatro),
        carta(Naipe::Ouros, Valor::Cinco),
        carta(Naipe::Paus, Valor::Seis),
    ];
    assert!(!validar_jogo(&jogo));
}

#[test]
fn corrida_rejeita_valor_repetido() {
    let jogo = vec![
        carta(Naipe::Paus, Valor::Quatro),
        carta(Naipe::Paus, Valor::Quatro),
        carta(Naipe::Paus, Valor::Cinco),
    ];
    assert!(!validar_jogo(&jogo));
}

#[test]
fn corrida_rejeita_tres_natural() {
    // O 3 nao entra em sequencia (indice 0).
    let jogo = vec![
        carta(Naipe::Paus, Valor::Tres),
        carta(Naipe::Paus, Valor::Quatro),
        carta(Naipe::Paus, Valor::Cinco),
    ];
    assert!(!validar_jogo(&jogo));
}

#[test]
fn trinca_de_ases_aceita_mesmo_com_naipes_mistos() {
    let jogo = vec![
        carta(Naipe::Copas, Valor::As),
        carta(Naipe::Espadas, Valor::As),
        carta(Naipe::Paus, Valor::As),
    ];
    assert!(validar_jogo(&jogo));
    let com_coringa = vec![
        carta(Naipe::Copas, Valor::As),
        carta(Naipe::Espadas, Valor::As),
        joker(),
    ];
    assert!(validar_jogo(&com_coringa));
}

#[test]
fn jogo_pequeno_demais() {
    let jogo = vec![carta(Naipe::Paus, Valor::Quatro), carta(Naipe::Paus, Valor::Cinco)];
    assert!(!validar_jogo(&jogo));
}

#[test]
fn tem_coringa_detecta() {
    let com = vec![carta(Naipe::Paus, Valor::Quatro), carta(Naipe::Copas, Valor::Dois)];
    let sem = vec![carta(Naipe::Paus, Valor::Quatro), carta(Naipe::Paus, Valor::Cinco)];
    assert!(tem_coringa(&com));
    assert!(!tem_coringa(&sem));
}

#[test]
fn status_de_canastra() {
    let naturais: Vec<Carta> = (0..7)
        .map(|i| {
            let valores = [
                Valor::Quatro,
                Valor::Cinco,
                Valor::Seis,
                Valor::Sete,
                Valor::Oito,
                Valor::Nove,
                Valor::Dez,
            ];
            carta(Naipe::Paus, valores[i])
        })
        .collect();
    assert_eq!(analisar_status_canastra(&naturais), StatusCanastra::Real);
    let mut com_dois = naturais.clone();
    com_dois[0] = carta(Naipe::Paus, Valor::Dois);
    assert_eq!(analisar_status_canastra(&com_dois), StatusCanastra::Suja);
    assert_eq!(analisar_status_canastra(&naturais[0..4]), StatusCanastra::Normal);
    // Joker nao tira o titulo de Real nesta convencao visual.
    let mut com_joker = naturais.clone();
    com_joker[0] = joker();
    assert_eq!(analisar_status_canastra(&com_joker), StatusCanastra::Real);
}

#[test]
fn assets_de_carta() {
    assert_eq!(carta_para_asset(&carta(Naipe::Paus, Valor::Quatro)), "c_4");
    assert_eq!(carta_para_asset(&carta(Naipe::Copas, Valor::Dama)), "h_q");
    assert_eq!(carta_para_asset(&carta(Naipe::Ouros, Valor::Dez)), "d_10");
    assert_eq!(carta_para_asset(&joker()), "joker_r");
    assert_eq!(get_card_path("c_4"), "/assets/cards/PaperCards1.1/c_4.png");
    assert_eq!(get_back_path("b"), "/assets/cards/PaperCards1.1/back_b.png");
    assert_eq!(verso_para_asset(Some(Verso::Blue)), "back_b");
    assert_eq!(verso_para_asset(Some(Verso::Red)), "back_r");
    assert_eq!(verso_para_asset(None), "back_r");
}

#[test]
fn cores_de_selecao() {
    assert_eq!(get_selection_color(0), "blue");
    assert_eq!(get_selection_color(1), "green");
    assert_eq!(get_selection_color(7), "orange");
    assert_eq!(get_selection_color(9), "cyan");
}

#[test]
fn posicoes_relativas() {
    assert_eq!(get_relative_position(0, 0), "bottom");
    assert_eq!(get_relative_position(0, 1), "right");
    assert_eq!(get_relative_position(0, 2), "top");
    assert_eq!(get_relative_position(0, 3), "left");
    assert_eq!(get_relative_position(3, 0), "right");
}

#[test]
fn leitura_de_indices() {
    assert_eq!(ler_indice(Some(&"12")), Some(12));
    assert_eq!(ler_indice(Some(&"0")), Some(0));
    assert_eq!(ler_indice(Some(&"x")), None);
    assert_eq!(ler_indice(Some(&"")), None);
    assert_eq!(ler_indice(None), None);
    assert_eq!(ler_varios_indices(&["3", "a", "7", ""]), vec![3, 7]);
}

#[test]
fn organizar_preserva_as_cartas() {
    let jogo = vec![
        joker(),
        carta(Naipe::Ouros, Valor::Nove),
        carta(Naipe::Ouros, Valor::Seis),
        carta(Naipe::Ouros, Valor::Oito),
    ];
    let organizado = organizar_para_exibicao(&jogo);
    assert_eq!(organizado.len(), jogo.len());
    for c in &jogo {
        let antes = jogo.iter().filter(|x| *x == c).count();
        let depois = organizado.iter().filter(|x| *x == c).count();
        assert_eq!(antes, depois);
    }
}

#[test]
fn naipe_dominante() {
    let grupo = vec![
        carta(Naipe::Ouros, Valor::Seis),
        carta(Naipe::Ouros, Valor::Sete),
        carta(Naipe::Paus, Valor::Oito),
    ];
    assert_eq!(descobrir_naipe_dominante(&grupo), Some(Naipe::Ouros));
    assert_eq!(descobrir_naipe_dominante(&[joker()]), None);
    assert_eq!(
        descobrir_naipe_dominante(&[carta(Naipe::Espadas, Valor::Dois)]),
        Some(Naipe::Espadas)
    );
}
