//! Motor de regras de um jogo de Buraco em duplas (4 jogadores, 2 times).
//!
//! O motor guarda toda a verdade do jogo: baralho, maos, lixo, jogos na mesa,
//! tres vermelhos, placar e turno. Cada acao de jogador e validada contra as
//! regras; em caso de recusa o estado fica intocado.

pub mod acoes;
pub mod baralho;
pub mod estado;
pub mod jogadas;
pub mod pontos;
pub mod regras;
pub mod visual;

pub use acoes::AcaoJogador;
pub use baralho::{Baralho, Carta, Naipe, Valor, Verso};
pub use estado::EstadoJogo;
