//! Validador de jogos (melds): decide se um grupo de cartas forma uma trinca
//! de Ases ou uma corrida de um so naipe, com no maximo um coringa cobrindo
//! as lacunas internas.

use crate::baralho::{coringa, indice_corrida, Carta, Naipe, Valor};
use vstd::prelude::*;

verus! {

/// Quantos coringas (2 ou Joker) ha na sequencia.
pub open spec fn conta_coringas(s: Seq<Carta>) -> int
    decreases s.len(),
{
    if s.len() == 0 {
        0
    } else {
        conta_coringas(s.drop_last()) + if coringa(s.last()) {
            1int
        } else {
            0int
        }
    }
}

/// Quantas cartas naturais (nao-coringas) ha na sequencia.
pub open spec fn conta_naturais(s: Seq<Carta>) -> int
    decreases s.len(),
{
    if s.len() == 0 {
        0
    } else {
        conta_naturais(s.drop_last()) + if coringa(s.last()) {
            0int
        } else {
            1int
        }
    }
}

/// Menor indice de corrida entre as naturais (15 quando nao ha natural).
pub open spec fn menor_indice(s: Seq<Carta>) -> int
    decreases s.len(),
{
    if s.len() == 0 {
        15
    } else {
        let m = menor_indice(s.drop_last());
        if !coringa(s.last()) && indice_corrida(s.last()) < m {
            indice_corrida(s.last())
        } else {
            m
        }
    }
}

/// Maior indice de corrida entre as naturais (-1 quando nao ha natural).
pub open spec fn maior_indice(s: Seq<Carta>) -> int
    decreases s.len(),
{
    if s.len() == 0 {
        -1
    } else {
        let m = maior_indice(s.drop_last());
        if !coringa(s.last()) && indice_corrida(s.last()) > m {
            indice_corrida(s.last())
        } else {
            m
        }
    }
}

/// Ha pelo menos um coringa na sequencia?
pub open spec fn algum_coringa(s: Seq<Carta>) -> bool {
    exists|i: int| 0 <= i < s.len() && coringa(#[trigger] s[i])
}

/// Todas as cartas naturais sao Ases.
pub open spec fn naturais_todos_ases(s: Seq<Carta>) -> bool {
    forall|i: int| 0 <= i < s.len() && !coringa(#[trigger] s[i]) ==> s[i].valor == Valor::As
}

/// Todas as cartas naturais compartilham um mesmo naipe.
pub open spec fn naturais_mesmo_naipe(s: Seq<Carta>) -> bool {
    forall|i: int, j: int|
        0 <= i < s.len() && 0 <= j < s.len() && !coringa(#[trigger] s[i]) && !coringa(
            #[trigger] s[j],
        ) ==> s[i].naipe == s[j].naipe
}

/// Nenhuma natural fica fora da sequenciacao (indice de corrida 0: o 3).
pub open spec fn naturais_sequenciaveis(s: Seq<Carta>) -> bool {
    forall|i: int| 0 <= i < s.len() && !coringa(#[trigger] s[i]) ==> indice_corrida(s[i]) != 0
}

/// Nao ha duas naturais com o mesmo indice de corrida.
pub open spec fn naturais_sem_repeticao(s: Seq<Carta>) -> bool {
    forall|i: int, j: int|
        0 <= i < j < s.len() && !coringa(#[trigger] s[i]) && !coringa(#[trigger] s[j])
            ==> indice_corrida(s[i]) != indice_corrida(s[j])
}

/// O grupo forma uma corrida valida: um so naipe, indices distintos e
/// sequenciaveis, e as lacunas internas cobertas pelos coringas presentes.
/// As lacunas de uma corrida de indices distintos somam
/// `maior - menor + 1 - naturais`.
pub open spec fn corrida_valida(s: Seq<Carta>) -> bool {
    &&& naturais_mesmo_naipe(s)
    &&& naturais_sequenciaveis(s)
    &&& naturais_sem_repeticao(s)
    &&& maior_indice(s) + 1 - menor_indice(s) - conta_naturais(s) <= conta_coringas(s)
}

/// O predicado de legalidade de um jogo: 3+ cartas, no maximo 1 coringa,
/// ao menos uma natural, e ou uma trinca de Ases ou uma corrida valida.
pub open spec fn jogo_valido(s: Seq<Carta>) -> bool {
    &&& s.len() >= 3
    &&& conta_coringas(s) <= 1
    &&& conta_naturais(s) >= 1
    &&& (naturais_todos_ases(s) || corrida_valida(s))
}

/// Lei do limite de coringas: nenhum jogo valido contem mais de um coringa.
pub proof fn lei_limite_coringas(s: Seq<Carta>)
    requires
        jogo_valido(s),
    ensures
        conta_coringas(s) <= 1,
{
}

/// Um jogo sem nenhum coringa conta zero coringas, e vice-versa.
pub proof fn lei_conta_coringas_zero(s: Seq<Carta>)
    ensures
        conta_coringas(s) == 0 <==> !algum_coringa(s),
    decreases s.len(),
{
    if s.len() > 0 {
        lei_conta_coringas_zero(s.drop_last());
        assert(conta_coringas(s.drop_last()) >= 0) by {
            lei_contagens_nao_negativas(s.drop_last());
        }
        if algum_coringa(s) {
            let i = choose|i: int| 0 <= i < s.len() && coringa(s[i]);
            if i < s.len() - 1 {
                assert(s.drop_last()[i] == s[i]);
                assert(algum_coringa(s.drop_last()));
            }
            assert(conta_coringas(s) > 0);
        } else {
            assert(forall|i: int|
                0 <= i < s.len() - 1 ==> s.drop_last()[i] == #[trigger] s[i]);
            assert(!algum_coringa(s.drop_last())) by {
                if algum_coringa(s.drop_last()) {
                    let i = choose|i: int|
                        0 <= i < s.drop_last().len() && coringa(s.drop_last()[i]);
                    assert(coringa(s[i]));
                }
            }
            assert(!coringa(s.last()));
        }
    }
}

/// As contagens de coringas e naturais nunca sao negativas e somam o tamanho.
pub proof fn lei_contagens_nao_negativas(s: Seq<Carta>)
    ensures
        conta_coringas(s) >= 0,
        conta_naturais(s) >= 0,
        conta_coringas(s) + conta_naturais(s) == s.len(),
    decreases s.len(),
{
    if s.len() > 0 {
        lei_contagens_nao_negativas(s.drop_last());
    }
}

/// Uma sequencia sem naturais contem so coringas.
pub proof fn lema_sem_naturais(s: Seq<Carta>)
    requires
        conta_naturais(s) == 0,
    ensures
        forall|i: int| 0 <= i < s.len() ==> coringa(#[trigger] s[i]),
    decreases s.len(),
{
    if s.len() > 0 {
        lei_contagens_nao_negativas(s.drop_last());
        lema_sem_naturais(s.drop_last());
        assert(forall|i: int| 0 <= i < s.len() - 1 ==> #[trigger] s[i] == s.drop_last()[i]);
    }
}

/// Com ao menos uma natural, os extremos dos indices ficam em 0..=14 e
/// ordenados; sem naturais, valem os neutros 15 e -1.
pub proof fn lema_menor_maior(s: Seq<Carta>)
    ensures
        conta_naturais(s) > 0 ==> 0 <= menor_indice(s) <= maior_indice(s) <= 14,
        conta_naturais(s) == 0 ==> menor_indice(s) == 15 && maior_indice(s) == -1,
    decreases s.len(),
{
    if s.len() > 0 {
        lei_contagens_nao_negativas(s.drop_last());
        lema_menor_maior(s.drop_last());
    }
}

/// Fatos de um passo de prefixo: `s.take(i + 1)` estende `s.take(i)` com `s[i]`.
proof fn lema_prefixo_passo(s: Seq<Carta>, i: int)
    requires
        0 <= i < s.len(),
    ensures
        s.take(i + 1).drop_last() =~= s.take(i),
        s.take(i + 1).last() == s[i],
        s.take(i + 1).len() == i + 1,
{
}

/// Decide se o grupo de cartas e um jogo legal (trinca de Ases ou corrida).
pub fn validar_jogo(cartas: &[Carta]) -> (r: bool)
    ensures
        r == jogo_valido(cartas@),
{
    let s = Ghost(cartas@);
    let n = cartas.len();
    if n < 3 {
        return false;
    }
    let mut coringas: usize = 0;
    let mut naturais: usize = 0;
    let mut todos_ases: bool = true;
    let mut naipe_ref: Option<Naipe> = None;
    let mut mesmo_naipe: bool = true;
    let mut sem_zero: bool = true;
    let mut sem_dup: bool = true;
    let mut menor: i32 = 15;
    let mut maior: i32 = -1;
    let mut visto: Vec<bool> = Vec::new();
    let mut b: usize = 0;
    while b < 15
        invariant
            b <= 15,
            visto@.len() == b,
            forall|k: int| 0 <= k < b ==> !visto@[k],
        decreases 15 - b,
    {
        visto.push(false);
        b += 1;
    }
    let mut i: usize = 0;
    while i < n
        invariant
            n == s@.len(),
            cartas@ == s@,
            i <= n,
            coringas + naturais == i,
            coringas as int == conta_coringas(s@.take(i as int)),
            naturais as int == conta_naturais(s@.take(i as int)),
            todos_ases == naturais_todos_ases(s@.take(i as int)),
            mesmo_naipe == naturais_mesmo_naipe(s@.take(i as int)),
            sem_zero == naturais_sequenciaveis(s@.take(i as int)),
            sem_dup == naturais_sem_repeticao(s@.take(i as int)),
            menor as int == menor_indice(s@.take(i as int)),
            maior as int == maior_indice(s@.take(i as int)),
            -1 <= maior < 15,
            -1 < menor <= 15,
            naipe_ref is None <==> naturais == 0,
            naipe_ref matches Some(np) ==> (mesmo_naipe ==> forall|j: int|
                0 <= j < i && !coringa(#[trigger] s@[j]) ==> s@[j].naipe == np),
            naipe_ref matches Some(np) ==> exists|j: int|
                0 <= j < i && !coringa(#[trigger] s@[j]) && s@[j].naipe == np,
            visto@.len() == 15,
            forall|k: int|
                0 <= k < 15 ==> (visto@[k] <==> exists|j: int|
                    0 <= j < i && !coringa(#[trigger] s@[j]) && indice_corrida(s@[j]) == k),
        decreases n - i,
    {
        let c = cartas[i];
        proof {
            lema_prefixo_passo(s@, i as int);
        }
        let ghost naipe_antes = naipe_ref;
        if c.eh_coringa() {
            coringas += 1;
        } else {
            naturais += 1;
            let idx = c.valor_numerico_sequencia();
            if !(c.valor == Valor::As) {
                todos_ases = false;
            }
            match naipe_ref {
                None => {
                    naipe_ref = Some(c.naipe);
                },
                Some(np) => {
                    if !(c.naipe == np) {
                        mesmo_naipe = false;
                    }
                },
            }
            if idx == 0 {
                sem_zero = false;
            }
            if visto[idx as usize] {
                sem_dup = false;
            }
            visto[idx as usize] = true;
            if (idx as i32) < menor {
                menor = idx as i32;
            }
            if (idx as i32) > maior {
                maior = idx as i32;
            }
            proof {
                let t = s@.take(i + 1);
                let p = s@.take(i as int);
                assert(forall|j: int| 0 <= j < i ==> t[j] == #[trigger] p[j]);
                assert(t[i as int] == s@[i as int]);
                assert(naturais_todos_ases(t) == (naturais_todos_ases(p) && s@[i as int].valor
                    == Valor::As));
                assert(naturais_sequenciaveis(t) == (naturais_sequenciaveis(p) && indice_corrida(
                    s@[i as int],
                ) != 0));
                match naipe_antes {
                    None => {
                        lema_sem_naturais(p);
                        assert(naturais_mesmo_naipe(p));
                        assert(naturais_mesmo_naipe(t));
                    },
                    Some(np) => {
                        let w = choose|j: int|
                            0 <= j < i && !coringa(#[trigger] s@[j]) && s@[j].naipe == np;
                        if mesmo_naipe && c.naipe != np {
                            assert(!coringa(t[w]) && !coringa(t[i as int]) && t[w].naipe != t[
                                i as int
                            ].naipe);
                            assert(!naturais_mesmo_naipe(t));
                        }
                    },
                }
            }
        }
        proof {
            let t = s@.take(i + 1);
            let p = s@.take(i as int);
            assert(forall|j: int| 0 <= j <= i ==> t[j] == #[trigger] s@[j]);
            assert(forall|j: int| 0 <= j < i ==> p[j] == #[trigger] s@[j]);
            if coringa(s@[i as int]) {
                assert(naturais_todos_ases(t) == naturais_todos_ases(p));
                assert(naturais_mesmo_naipe(t) == naturais_mesmo_naipe(p));
                assert(naturais_sequenciaveis(t) == naturais_sequenciaveis(p));
                assert(naturais_sem_repeticao(t) == naturais_sem_repeticao(p));
            } else {
                assert(naturais_mesmo_naipe(t) == (naturais_mesmo_naipe(p) && forall|j: int|
                    0 <= j < i && !coringa(#[trigger] s@[j]) ==> s@[j].naipe == s@[
                        i as int
                    ].naipe));
                assert(naturais_sem_repeticao(t) == (naturais_sem_repeticao(p) && forall|j: int|
                    0 <= j < i && !coringa(#[trigger] s@[j]) ==> indice_corrida(s@[j])
                        != indice_corrida(s@[i as int])));
            }
        }
        i += 1;
    }
    proof {
        assert(s@.take(n as int) =~= s@);
        lema_menor_maior(s@);
    }
    if coringas > 1 || naturais == 0 {
        return false;
    }
    if todos_ases {
        return true;
    }
    if !(mesmo_naipe && sem_zero && sem_dup) {
        return false;
    }
    assert(0 <= menor <= maior <= 14);
    let span = maior + 1 - menor;
    (span as usize) <= coringas + naturais
}

/// Ha algum coringa no grupo?
pub fn tem_coringa(jogo: &[Carta]) -> (r: bool)
    ensures
        r == algum_coringa(jogo@),
        r == (conta_coringas(jogo@) > 0),
{
    proof {
        lei_conta_coringas_zero(jogo@);
        lei_contagens_nao_negativas(jogo@);
    }
    let n = jogo.len();
    let mut i: usize = 0;
    while i < n
        invariant
            n == jogo@.len(),
            i <= n,
            forall|j: int| 0 <= j < i ==> !coringa(#[trigger] jogo@[j]),
        decreases n - i,
    {
        if jogo[i].eh_coringa() {
            proof {
                assert(coringa(jogo@[i as int]));
                assert(algum_coringa(jogo@));
                lei_conta_coringas_zero(jogo@);
                lei_contagens_nao_negativas(jogo@);
            }
            return true;
        }
        i += 1;
    }
    false
}

} // verus!
