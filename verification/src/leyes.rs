//! The laws the store's operations obey, each proved once and for all:
//! upload bookkeeping keeps retried payloads verbatim and never uploads a
//! confirmed patient again, catalog upserts converge regardless of pull
//! order, and pool registration never disturbs a pool the allocator owns.

use vstd::prelude::*;
use crate::modelo::{
    PacienteV, PoolV, Registro, claves_unicas, mapa_de, lemma_mapa_dominio,
    lemma_insercion_conmuta, primer_indice, lemma_primer_indice,
};
use crate::store::ids_locales_unicos;
use crate::sync::{
    pendientes, spec_marcar, paciente_marcado, pred_id_local, aplicar_lote, spec_registrar,
    registrar_lote, aplicar_respuesta_pool, existe_lote, info_valida, pool_de_info, PoolInfoV,
    ServerResponsePoolV,
};

verus! {

/// Every element of a filtered sequence comes from the sequence.
proof fn lemma_filtro_origen<A>(s: Seq<A>, pred: spec_fn(A) -> bool, k: int)
    requires
        0 <= k < s.filter(pred).len(),
    ensures
        exists|j: int| 0 <= j < s.len() && s[j] == s.filter(pred)[k],
    decreases s.len(),
{
    reveal(Seq::filter);
    if s.len() > 0 {
        let cola = s.drop_last().filter(pred);
        if k < cola.len() {
            lemma_filtro_origen(s.drop_last(), pred, k);
            let j = choose|j: int|
                0 <= j < s.drop_last().len() && s.drop_last()[j] == s.drop_last().filter(pred)[k];
            assert(s[j] == s.filter(pred)[k]);
        } else {
            assert(s[s.len() - 1] == s.filter(pred)[k]);
        }
    }
}

/// Upload bookkeeping under retries. After the remote authority confirms
/// patient `id`:
/// - no pending patient carries `id` any more, so a confirmed patient is
///   never uploaded again;
/// - every patient still pending was pending before, unchanged — and since
///   an upload body is a function of the row alone, its payload is the same;
/// - every patient pending before, other than `id`, is still pending
///   unchanged, so it is retried verbatim on the next cycle.
/// An identifier naming no row (and any failed or rejected upload, which
/// records nothing at all) leaves the table exactly as it was.
pub proof fn lemma_subida_idempotente(ps: Seq<PacienteV>, id: int)
    requires
        ids_locales_unicos(ps),
    ensures
        forall|k: int|
            0 <= k < pendientes(spec_marcar(ps, id)).len() ==> (#[trigger] pendientes(
                spec_marcar(ps, id),
            )[k]).id_local != id,
        forall|k: int|
            0 <= k < pendientes(spec_marcar(ps, id)).len() ==> pendientes(ps).contains(
                #[trigger] pendientes(spec_marcar(ps, id))[k],
            ),
        forall|k: int|
            0 <= k < pendientes(ps).len() && (#[trigger] pendientes(ps)[k]).id_local != id
                ==> pendientes(spec_marcar(ps, id)).contains(pendientes(ps)[k]),
        !(exists|i: int| 0 <= i < ps.len() && ps[i].id_local == id) ==> spec_marcar(ps, id) == ps,
{
    broadcast use vstd::seq_lib::group_filter_ensures;

    lemma_primer_indice(ps, pred_id_local(id));
    match primer_indice(ps, pred_id_local(id)) {
        None => {
            if exists|i: int| 0 <= i < ps.len() && ps[i].id_local == id {
                let i = choose|i: int| 0 <= i < ps.len() && ps[i].id_local == id;
                assert(pred_id_local(id)(ps[i]));
            }
            let pred = |p: PacienteV| !p.sincronizado;
            assert(spec_marcar(ps, id) == ps);
            assert forall|k: int|
                0 <= k < pendientes(ps).len() implies (#[trigger] pendientes(ps)[k]).id_local != id
                && pendientes(ps).contains(pendientes(ps)[k]) by {
                lemma_filtro_origen(ps, pred, k);
                let j = choose|j: int| 0 <= j < ps.len() && ps[j] == pendientes(ps)[k];
                assert(!pred_id_local(id)(ps[j]));
                assert(pendientes(ps)[k] == pendientes(ps)[k]);
            }
        },
        Some(m) => {
            assert(pred_id_local(id)(ps[m]));
            assert(ps[m].id_local == id);
            let ps2 = ps.update(m, paciente_marcado(ps[m]));
            assert(spec_marcar(ps, id) == ps2);
            let pred = |p: PacienteV| !p.sincronizado;
            assert forall|k: int|
                0 <= k < pendientes(ps2).len() implies (#[trigger] pendientes(ps2)[k]).id_local
                != id && pendientes(ps).contains(pendientes(ps2)[k]) by {
                let e = pendientes(ps2)[k];
                assert(pred(e));
                lemma_filtro_origen(ps2, pred, k);
                let j = choose|j: int| 0 <= j < ps2.len() && ps2[j] == e;
                if j == m {
                    assert(e.sincronizado);
                } else {
                    assert(ps2[j] == ps[j]);
                    if e.id_local == id {
                        if j < m {
                            assert(ps[j].id_local != ps[m].id_local);
                        } else {
                            assert(ps[m].id_local != ps[j].id_local);
                        }
                    }
                    assert(ps.filter(pred).contains(ps[j]));
                }
            }
            assert forall|k: int|
                0 <= k < pendientes(ps).len() && (#[trigger] pendientes(ps)[k]).id_local
                    != id implies pendientes(ps2).contains(pendientes(ps)[k]) by {
                let e = pendientes(ps)[k];
                assert(pred(e));
                lemma_filtro_origen(ps, pred, k);
                let j = choose|j: int| 0 <= j < ps.len() && ps[j] == e;
                assert(j != m);
                assert(ps2[j] == e);
                assert(ps2.filter(pred).contains(ps2[j]));
            }
        },
    }
}

/// The synchronized flag is one-way: marking a confirmed upload never
/// lowers any row's flag, and no other operation of the store writes it at
/// all, so `sincronizado` can only ever go from zero to one.
pub proof fn lemma_sincronizado_monotono(ps: Seq<PacienteV>, id: int)
    ensures
        spec_marcar(ps, id).len() == ps.len(),
        forall|i: int|
            0 <= i < ps.len() && (#[trigger] ps[i]).sincronizado ==> spec_marcar(ps, id)[i]
                .sincronizado,
{
    lemma_primer_indice(ps, pred_id_local(id));
}

/// Catalog upsert convergence, same key: pulling a row twice under one key
/// leaves exactly the later values, the same as pulling only the later row.
proof fn lemma_lote_singular<T: Registro>(m: Map<Seq<char>, T>, x: T)
    ensures
        aplicar_lote(m, seq![x]) == m.insert(x.clave(), x),
{
    let s = seq![x];
    assert(s.len() == 1);
    assert(s[0] == x);
    assert(s.skip(1) =~= Seq::<T>::empty());
    assert(aplicar_lote(m, s) == aplicar_lote(m.insert(x.clave(), x), s.skip(1)));
}

pub proof fn lemma_upsert_convergente<T: Registro>(m: Map<Seq<char>, T>, a: T, b: T)
    requires
        a.clave() == b.clave(),
    ensures
        aplicar_lote(m, seq![a, b]) == m.insert(b.clave(), b),
        aplicar_lote(m, seq![a, b]) == aplicar_lote(m, seq![b]),
{
    let dos = seq![a, b];
    let m1 = m.insert(a.clave(), a);
    assert(dos.len() == 2);
    assert(dos[0] == a);
    assert(dos.skip(1) =~= seq![b]);
    assert(aplicar_lote(m, dos) == aplicar_lote(m1, dos.skip(1)));
    lemma_lote_singular(m1, b);
    lemma_lote_singular(m, b);
    assert(m1.insert(b.clave(), b) =~= m.insert(b.clave(), b));
}

/// Catalog upsert convergence, distinct keys: the order of two pulls with
/// non-overlapping identifiers does not affect the final table content.
pub proof fn lemma_upsert_conmuta<T: Registro>(m: Map<Seq<char>, T>, a: T, b: T)
    requires
        a.clave() != b.clave(),
    ensures
        aplicar_lote(aplicar_lote(m, seq![a]), seq![b]) == aplicar_lote(
            aplicar_lote(m, seq![b]),
            seq![a],
        ),
{
    lemma_lote_singular(m, a);
    lemma_lote_singular(m, b);
    lemma_lote_singular(m.insert(a.clave(), a), b);
    lemma_lote_singular(m.insert(b.clave(), b), a);
    lemma_insercion_conmuta(m, a.clave(), a, b.clave(), b);
}

/// A key present in a well-formed catalog table names exactly one row.
pub proof fn lemma_una_fila<T: Registro>(s: Seq<T>, k: Seq<char>)
    requires
        claves_unicas(s),
        mapa_de(s).contains_key(k),
    ensures
        exists|i: int| 0 <= i < s.len() && (#[trigger] s[i]).clave() == k,
        forall|i: int, j: int|
            0 <= i < s.len() && (#[trigger] s[i]).clave() == k && 0 <= j < s.len() && (
            #[trigger] s[j]).clave() == k ==> i == j,
{
    lemma_mapa_dominio(s, k);
}

/// Pool registration is idempotent: pulling the same lot twice registers it
/// once; the second registration finds the lot and changes nothing.
pub proof fn lemma_registro_idempotente(pools: Seq<PoolV>, p: PoolInfoV)
    ensures
        spec_registrar(spec_registrar(pools, p), p) == spec_registrar(pools, p),
{
    if !existe_lote(pools, p.lote_id) && info_valida(p) {
        let nuevos = pools.push(pool_de_info(p));
        assert(nuevos[pools.len() as int].lote_id == p.lote_id);
        assert(existe_lote(nuevos, p.lote_id));
    }
}

/// A whole batch of pool pull answers never touches an existing pool row:
/// whatever the allocator has consumed locally is never reset by a pull.
pub proof fn lemma_lote_preserva(pools: Seq<PoolV>, rs: Seq<ServerResponsePoolV>, j: int)
    requires
        0 <= j < pools.len(),
    ensures
        registrar_lote(pools, rs).len() >= pools.len(),
        registrar_lote(pools, rs)[j] == pools[j],
    decreases rs.len(),
{
    if rs.len() > 0 {
        let paso = aplicar_respuesta_pool(pools, rs[0]);
        assert(paso[j] == pools[j]);
        assert(paso.len() >= pools.len());
        lemma_lote_preserva(paso, rs.skip(1), j);
    }
}

} // verus!
