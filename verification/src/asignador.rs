//! The pool allocator: hands out the next unused sequential number of a
//! barcode pool without network access, never issuing the same number twice.
//!
//! Selection takes the oldest non-exhausted pool of the requested kind
//! (lowest row position: the first lot created drains first). When every
//! provisioned lot of the kind is drained the caller learns `PoolExhausted`;
//! `PoolUnavailable` means no lot of the kind was ever provisioned, so only
//! a new synchronization can help.

use vstd::prelude::*;
use crate::modelo::{
    PoolV, Registro, primer_indice, lemma_primer_indice, lemma_primer_indice_es,
};
use crate::store::{Store, StoreV};
use crate::codigo::{texto_codigo, formatear_codigo};

verus! {

/// A successfully issued barcode.
pub struct BarcodeResult {
    pub barcode: String,
}

/// Why no barcode could be issued.
#[derive(Clone, Copy, Debug, PartialEq, Eq, Structural)]
pub enum PoolError {
    /// No pool of the requested kind exists locally; the terminal must
    /// synchronize with the remote authority before retrying.
    PoolUnavailable,
    /// Every pool of the requested kind has been drained.
    PoolExhausted,
}

/// A pool can serve a request of kind `t` if it is of that kind and not
/// yet marked exhausted.
pub open spec fn pred_pool_activo(t: Seq<char>) -> spec_fn(PoolV) -> bool {
    |p: PoolV| p.tipo == t && !p.agotado
}

/// Some pool of kind `t` exists, drained or not.
pub open spec fn hay_pool_de_tipo(pools: Seq<PoolV>, t: Seq<char>) -> bool {
    exists|i: int| 0 <= i < pools.len() && pools[i].tipo == t
}

/// The pool after one successful allocation: the cursor advances by one and
/// the exhaustion flag rises exactly when the cursor reaches the range end.
pub open spec fn pool_tras_exito(p: PoolV) -> PoolV {
    PoolV {
        ultimo_usado: p.ultimo_usado + 1,
        agotado: p.ultimo_usado + 1 == p.rango_fin,
        ..p
    }
}

/// The pool after a late exhaustion discovery: only the flag rises.
pub open spec fn pool_marcado_agotado(p: PoolV) -> PoolV {
    PoolV { agotado: true, ..p }
}

/// The allocation transition on the pool table: the new table and either
/// the issued barcode text or the error.
pub open spec fn spec_asignar(pools: Seq<PoolV>, t: Seq<char>) -> (Seq<PoolV>, Result<
    Seq<char>,
    PoolError,
>) {
    match primer_indice(pools, pred_pool_activo(t)) {
        None => if hay_pool_de_tipo(pools, t) {
            (pools, Err(PoolError::PoolExhausted))
        } else {
            (pools, Err(PoolError::PoolUnavailable))
        },
        Some(i) => {
            let p = pools[i];
            if p.ultimo_usado + 1 > p.rango_fin {
                (pools.update(i, pool_marcado_agotado(p)), Err(PoolError::PoolExhausted))
            } else {
                (
                    pools.update(i, pool_tras_exito(p)),
                    Ok(texto_codigo(p.prefijo, (p.ultimo_usado + 1) as nat)),
                )
            }
        },
    }
}

/// Issues the next number of the oldest active pool of kind `tipo`, updating
/// the pool row in the same step, exactly as `spec_asignar` states.
pub fn obtener_codigo_barras_offline(store: &mut Store, tipo: &String) -> (res: Result<
    BarcodeResult,
    PoolError,
>)
    requires
        old(store)@.wf(),
    ensures
        final(store)@.wf(),
        final(store)@.pools == spec_asignar(old(store)@.pools, tipo@).0,
        match res {
            Ok(b) => spec_asignar(old(store)@.pools, tipo@).1 == Ok::<Seq<char>, PoolError>(
                b.barcode@,
            ),
            Err(e) => spec_asignar(old(store)@.pools, tipo@).1 == Err::<Seq<char>, PoolError>(e),
        },
        final(store)@.usuarios == old(store)@.usuarios,
        final(store)@.sucursales == old(store)@.sucursales,
        final(store)@.estudios == old(store)@.estudios,
        final(store)@.pacientes == old(store)@.pacientes,
        final(store)@.siguiente_id_paciente == old(store)@.siguiente_id_paciente,
{
    let ghost vp = old(store)@.pools;
    let mut i: usize = 0;
    let mut existe_tipo: bool = false;
    while i < store.pools.len()
        invariant
            old(store)@.wf(),
            store@ == old(store)@,
            i <= store.pools.len(),
            vp == store@.pools,
            store@.pools.len() == store.pools.len(),
            forall|k: int| 0 <= k < i ==> !pred_pool_activo(tipo@)(vp[k]),
            existe_tipo <==> exists|k: int| 0 <= k < i && vp[k].tipo == tipo@,
        decreases store.pools.len() - i,
    {
        let es_tipo = store.pools[i].tipo == *tipo;
        if es_tipo && !store.pools[i].agotado {
            proof {
                assert(vp[i as int] == store.pools@[i as int]@);
                assert(pred_pool_activo(tipo@)(vp[i as int]));
                lemma_primer_indice_es(vp, pred_pool_activo(tipo@), i as int);
            }
            proof {
                assert(old(store)@.pools[i as int].valido());
            }
            let candidato: u64 = store.pools[i].ultimo_usado + 1;
            if candidato > store.pools[i].rango_fin {
                // Self-healing: a drained pool whose flag was never raised is
                // marked now, and the caller is told the pool is exhausted.
                store.pools[i].agotado = true;
                proof {
                    assert(store@.pools =~= vp.update(i as int, pool_marcado_agotado(vp[i as int])));
                    lemma_wf_pools_actualizados(old(store)@, store@, i as int);
                }
                return Err(PoolError::PoolExhausted);
            }
            let prefijo = store.pools[i].prefijo.clone();
            store.pools[i].ultimo_usado = candidato;
            let agota = candidato == store.pools[i].rango_fin;
            store.pools[i].agotado = agota;
            let barcode = formatear_codigo(&prefijo, candidato);
            proof {
                assert(store@.pools =~= vp.update(i as int, pool_tras_exito(vp[i as int])));
                lemma_wf_pools_actualizados(old(store)@, store@, i as int);
            }
            return Ok(BarcodeResult { barcode });
        }
        proof {
            assert(vp[i as int] == store.pools@[i as int]@);
            assert(!pred_pool_activo(tipo@)(vp[i as int]));
            assert(es_tipo <==> vp[i as int].tipo == tipo@);
        }
        existe_tipo = existe_tipo || es_tipo;
        i = i + 1;
    }
    proof {
        lemma_primer_indice(vp, pred_pool_activo(tipo@));
        assert(primer_indice(vp, pred_pool_activo(tipo@)) is None);
    }
    if existe_tipo {
        Err(PoolError::PoolExhausted)
    } else {
        Err(PoolError::PoolUnavailable)
    }
}

/// Updating one pool row in place, without touching its lot identifier or
/// its range bounds, keeps the store well formed.
proof fn lemma_wf_pools_actualizados(antes: StoreV, despues: StoreV, i: int)
    requires
        antes.wf(),
        0 <= i < antes.pools.len(),
        despues.pools.len() == antes.pools.len(),
        despues.pools == antes.pools.update(i, despues.pools[i]),
        despues.pools[i].lote_id == antes.pools[i].lote_id,
        despues.pools[i].valido(),
        despues.usuarios == antes.usuarios,
        despues.sucursales == antes.sucursales,
        despues.estudios == antes.estudios,
        despues.pacientes == antes.pacientes,
        despues.siguiente_id_paciente == antes.siguiente_id_paciente,
    ensures
        despues.wf(),
{
    assert forall|a: int, b: int|
        0 <= a < b < despues.pools.len() implies (#[trigger] despues.pools[a]).clave()
        != (#[trigger] despues.pools[b]).clave() by {
        assert(despues.pools[a].lote_id == antes.pools[a].lote_id);
        assert(despues.pools[b].lote_id == antes.pools[b].lote_id);
        assert(antes.pools[a].clave() != antes.pools[b].clave());
    }
    assert forall|k: int| 0 <= k < despues.pools.len() implies (
    #[trigger] despues.pools[k]).valido() by {
        if k != i {
            assert(despues.pools[k] == antes.pools[k]);
        }
    }
}

// ---------------------------------------------------------------------------
// Laws of the allocator
// ---------------------------------------------------------------------------
/// One successful allocation step on a single pool: `n` is the number issued.
pub open spec fn transicion_exitosa(p: PoolV, q: PoolV, n: int) -> bool {
    &&& n == p.ultimo_usado + 1
    &&& n <= p.rango_fin
    &&& q == pool_tras_exito(p)
}

proof fn lemma_cursor_tras_exitos(ps: Seq<PoolV>, ns: Seq<int>, k: int)
    requires
        ps.len() == ns.len() + 1,
        forall|j: int|
            0 <= j < ns.len() ==> #[trigger] transicion_exitosa(ps[j], ps[j + 1], ns[j]),
        0 <= k < ps.len(),
    ensures
        ps[k].ultimo_usado == ps[0].ultimo_usado + k,
    decreases k,
{
    if k > 0 {
        lemma_cursor_tras_exitos(ps, ns, k - 1);
        let j = k - 1;
        assert(transicion_exitosa(ps[j], ps[j + 1], ns[j]));
    }
}

/// Allocator uniqueness: a run of `N` successful allocations on one pool
/// issues the numbers `ultimo_usado + 1`, ..., `ultimo_usado + N`, pairwise
/// distinct and in strictly increasing order; starting from a fresh pool
/// (`ultimo_usado == rango_inicio - 1`) they are exactly the first `N`
/// numbers of the range, with no gap and no repetition.
pub proof fn lemma_unicidad_asignador(ps: Seq<PoolV>, ns: Seq<int>)
    requires
        ps.len() == ns.len() + 1,
        forall|j: int|
            0 <= j < ns.len() ==> #[trigger] transicion_exitosa(ps[j], ps[j + 1], ns[j]),
    ensures
        forall|j: int| 0 <= j < ns.len() ==> ns[j] == ps[0].ultimo_usado + 1 + j,
        forall|a: int, b: int| 0 <= a < b < ns.len() ==> ns[a] < ns[b],
        forall|a: int, b: int| 0 <= a < b < ns.len() ==> ns[a] != ns[b],
{
    assert forall|j: int| 0 <= j < ns.len() implies ns[j] == ps[0].ultimo_usado + 1 + j by {
        lemma_cursor_tras_exitos(ps, ns, j);
        assert(transicion_exitosa(ps[j], ps[j + 1], ns[j]));
        assert(ps[j].ultimo_usado == ps[0].ultimo_usado + j);
    }
}

/// A successful allocation is exactly one `transicion_exitosa` step on the
/// selected pool (the oldest active one of the kind), every other pool left
/// untouched — so a run of successes falls under `lemma_unicidad_asignador`.
pub proof fn lemma_asignacion_es_transicion(pools: Seq<PoolV>, t: Seq<char>, i: int)
    requires
        primer_indice(pools, pred_pool_activo(t)) == Some(i),
        pools[i].ultimo_usado + 1 <= pools[i].rango_fin,
    ensures
        0 <= i < pools.len(),
        spec_asignar(pools, t).0 == pools.update(i, pool_tras_exito(pools[i])),
        spec_asignar(pools, t).1 == Ok::<Seq<char>, PoolError>(
            texto_codigo(pools[i].prefijo, (pools[i].ultimo_usado + 1) as nat),
        ),
        transicion_exitosa(pools[i], spec_asignar(pools, t).0[i], pools[i].ultimo_usado + 1),
        forall|j: int| 0 <= j < pools.len() && j != i ==> spec_asignar(pools, t).0[j] == pools[j],
{
    lemma_primer_indice(pools, pred_pool_activo(t));
}

/// Exhaustion is permanent: an allocation never touches a pool already
/// marked exhausted, whatever the outcome, so neither its cursor nor its
/// flag ever changes again.
pub proof fn lemma_agotado_permanente(pools: Seq<PoolV>, t: Seq<char>, j: int)
    requires
        0 <= j < pools.len(),
        pools[j].agotado,
    ensures
        spec_asignar(pools, t).0.len() == pools.len(),
        spec_asignar(pools, t).0[j] == pools[j],
        spec_asignar(pools, t).0[j].agotado,
{
    lemma_primer_indice(pools, pred_pool_activo(t));
    match primer_indice(pools, pred_pool_activo(t)) {
        None => {},
        Some(i) => {
            assert(pred_pool_activo(t)(pools[i]));
            assert(i != j);
        },
    }
}

/// Once every pool of a kind is exhausted, every later allocation of that
/// kind fails with `PoolExhausted` and leaves the whole table unchanged.
pub proof fn lemma_agotamiento_estable(pools: Seq<PoolV>, t: Seq<char>)
    requires
        hay_pool_de_tipo(pools, t),
        forall|i: int| 0 <= i < pools.len() && (#[trigger] pools[i]).tipo == t ==> pools[i].agotado,
    ensures
        spec_asignar(pools, t) == (pools, Err::<Seq<char>, PoolError>(PoolError::PoolExhausted)),
{
    lemma_primer_indice(pools, pred_pool_activo(t));
    match primer_indice(pools, pred_pool_activo(t)) {
        None => {},
        Some(i) => {
            assert(pred_pool_activo(t)(pools[i]));
        },
    }
}

} // verus!
