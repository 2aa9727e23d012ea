//! Entities of the local store and their mathematical views.
//!
//! Catalog tables (users, branches, studies) are mirrors of remote data,
//! keyed by the identifier the remote authority assigned; their abstract
//! content is a map from key to record. Transactional and pool tables keep
//! their row order, so their views stay sequences.

use vstd::prelude::*;

verus! {

// ---------------------------------------------------------------------------
// Catalog entities
// ---------------------------------------------------------------------------
/// A mirrored user row.
#[derive(Debug)]
pub struct Usuario {
    pub id: String,
    pub nombre: String,
    pub apellido: String,
    pub rol: String,
    pub sucursal_id: String,
}

/// Abstract value of a user row.
pub struct UsuarioV {
    pub id: Seq<char>,
    pub nombre: Seq<char>,
    pub apellido: Seq<char>,
    pub rol: Seq<char>,
    pub sucursal_id: Seq<char>,
}

impl View for Usuario {
    type V = UsuarioV;

    open spec fn view(&self) -> UsuarioV {
        UsuarioV {
            id: self.id@,
            nombre: self.nombre@,
            apellido: self.apellido@,
            rol: self.rol@,
            sucursal_id: self.sucursal_id@,
        }
    }
}

impl Usuario {
    /// A field-by-field copy.
    pub fn clonar(&self) -> (u: Usuario)
        ensures
            u@ == self@,
    {
        Usuario {
            id: self.id.clone(),
            nombre: self.nombre.clone(),
            apellido: self.apellido.clone(),
            rol: self.rol.clone(),
            sucursal_id: self.sucursal_id.clone(),
        }
    }
}

/// A mirrored branch row.
pub struct Sucursal {
    pub id: String,
    pub nombre: String,
}

/// Abstract value of a branch row.
pub struct SucursalV {
    pub id: Seq<char>,
    pub nombre: Seq<char>,
}

impl View for Sucursal {
    type V = SucursalV;

    open spec fn view(&self) -> SucursalV {
        SucursalV { id: self.id@, nombre: self.nombre@ }
    }
}

/// A mirrored study-catalog row. The price travels as its decimal text so
/// that the store never holds machine floating point.
pub struct Estudio {
    pub id: String,
    pub nombre: String,
    pub codigo: String,
    pub precio: String,
    pub categoria: String,
}

/// Abstract value of a study row.
pub struct EstudioV {
    pub id: Seq<char>,
    pub nombre: Seq<char>,
    pub codigo: Seq<char>,
    pub precio: Seq<char>,
    pub categoria: Seq<char>,
}

impl View for Estudio {
    type V = EstudioV;

    open spec fn view(&self) -> EstudioV {
        EstudioV {
            id: self.id@,
            nombre: self.nombre@,
            codigo: self.codigo@,
            precio: self.precio@,
            categoria: self.categoria@,
        }
    }
}

// ---------------------------------------------------------------------------
// Transactional entities
// ---------------------------------------------------------------------------
/// A locally created patient record, later claimed by the remote authority.
pub struct Paciente {
    pub id_local: u64,
    pub nombre: String,
    pub apellido: String,
    pub cedula: String,
    pub sucursal_id: String,
    pub sincronizado: bool,
    pub creado_en: String,
}

/// Abstract value of a patient row.
pub struct PacienteV {
    pub id_local: int,
    pub nombre: Seq<char>,
    pub apellido: Seq<char>,
    pub cedula: Seq<char>,
    pub sucursal_id: Seq<char>,
    pub sincronizado: bool,
    pub creado_en: Seq<char>,
}

impl View for Paciente {
    type V = PacienteV;

    open spec fn view(&self) -> PacienteV {
        PacienteV {
            id_local: self.id_local as int,
            nombre: self.nombre@,
            apellido: self.apellido@,
            cedula: self.cedula@,
            sucursal_id: self.sucursal_id@,
            sincronizado: self.sincronizado,
            creado_en: self.creado_en@,
        }
    }
}

impl Paciente {
    /// A field-by-field copy.
    pub fn clonar(&self) -> (p: Paciente)
        ensures
            p@ == self@,
    {
        Paciente {
            id_local: self.id_local,
            nombre: self.nombre.clone(),
            apellido: self.apellido.clone(),
            cedula: self.cedula.clone(),
            sucursal_id: self.sucursal_id.clone(),
            sincronizado: self.sincronizado,
            creado_en: self.creado_en.clone(),
        }
    }
}

/// A barcode pool: a numeric range pre-assigned by the remote authority,
/// drained locally one number at a time.
pub struct BarcodePool {
    pub lote_id: String,
    pub tipo: String,
    pub prefijo: String,
    pub rango_inicio: u64,
    pub rango_fin: u64,
    pub ultimo_usado: u64,
    pub agotado: bool,
}

/// Abstract value of a pool row.
pub struct PoolV {
    pub lote_id: Seq<char>,
    pub tipo: Seq<char>,
    pub prefijo: Seq<char>,
    pub rango_inicio: int,
    pub rango_fin: int,
    pub ultimo_usado: int,
    pub agotado: bool,
}

impl View for BarcodePool {
    type V = PoolV;

    open spec fn view(&self) -> PoolV {
        PoolV {
            lote_id: self.lote_id@,
            tipo: self.tipo@,
            prefijo: self.prefijo@,
            rango_inicio: self.rango_inicio as int,
            rango_fin: self.rango_fin as int,
            ultimo_usado: self.ultimo_usado as int,
            agotado: self.agotado,
        }
    }
}

impl PoolV {
    /// Range sanity of one pool row: the range starts at one or later, the
    /// cursor sits inside `[rango_inicio - 1, rango_fin]`, and the range end
    /// leaves room to compute the next candidate without overflow.
    pub open spec fn valido(self) -> bool {
        &&& 1 <= self.rango_inicio
        &&& self.rango_inicio - 1 <= self.ultimo_usado <= self.rango_fin
        &&& self.rango_fin <= i64::MAX as int
    }
}

// ---------------------------------------------------------------------------
// Keyed rows: one abstract map per catalog table
// ---------------------------------------------------------------------------
/// A row addressed by a remote-assigned key.
pub trait Registro {
    /// The key of this row.
    spec fn clave(&self) -> Seq<char>;
}

impl Registro for UsuarioV {
    open spec fn clave(&self) -> Seq<char> {
        self.id
    }
}

impl Registro for SucursalV {
    open spec fn clave(&self) -> Seq<char> {
        self.id
    }
}

impl Registro for EstudioV {
    open spec fn clave(&self) -> Seq<char> {
        self.id
    }
}

/// No two rows share a key.
pub open spec fn claves_unicas<T: Registro>(s: Seq<T>) -> bool {
    forall|i: int, j: int| 0 <= i < j < s.len() ==> s[i].clave() != s[j].clave()
}

/// The abstract content of a keyed table: its rows as a map from key to row.
/// A later row wins over an earlier one with the same key.
pub open spec fn mapa_de<T: Registro>(s: Seq<T>) -> Map<Seq<char>, T>
    decreases s.len(),
{
    if s.len() == 0 {
        Map::empty()
    } else {
        mapa_de(s.drop_last()).insert(s.last().clave(), s.last())
    }
}

/// A key is in the table's map exactly when some row carries it.
pub proof fn lemma_mapa_dominio<T: Registro>(s: Seq<T>, k: Seq<char>)
    ensures
        mapa_de(s).contains_key(k) <==> exists|i: int| 0 <= i < s.len() && s[i].clave() == k,
    decreases s.len(),
{
    if s.len() > 0 {
        lemma_mapa_dominio(s.drop_last(), k);
        if mapa_de(s).contains_key(k) && s.last().clave() != k {
            let i = choose|i: int| 0 <= i < s.drop_last().len() && s.drop_last()[i].clave() == k;
            assert(s[i].clave() == k);
        }
        if exists|i: int| 0 <= i < s.len() && s[i].clave() == k {
            let i = choose|i: int| 0 <= i < s.len() && s[i].clave() == k;
            if i < s.len() - 1 {
                assert(s.drop_last()[i].clave() == k);
            }
        }
    }
}

/// Overwriting the row that holds key `k` updates the map at `k` alone.
pub proof fn lemma_mapa_actualiza<T: Registro>(s: Seq<T>, i: int, x: T)
    requires
        claves_unicas(s),
        0 <= i < s.len(),
        x.clave() == s[i].clave(),
    ensures
        claves_unicas(s.update(i, x)),
        mapa_de(s.update(i, x)) =~= mapa_de(s).insert(x.clave(), x),
    decreases s.len(),
{
    let t = s.update(i, x);
    assert(forall|a: int, b: int| 0 <= a < b < t.len() ==> t[a].clave() != t[b].clave()) by {
        assert(forall|a: int|
            0 <= a < t.len() ==> t[a].clave() == if a == i {
                x.clave()
            } else {
                s[a].clave()
            });
    }
    if i == s.len() - 1 {
        assert(t.drop_last() =~= s.drop_last());
        assert(mapa_de(t) == mapa_de(s.drop_last()).insert(x.clave(), x));
        assert(mapa_de(s.drop_last()).insert(s.last().clave(), s.last()).insert(x.clave(), x)
            =~= mapa_de(s.drop_last()).insert(x.clave(), x));
    } else {
        assert(claves_unicas(s.drop_last())) by {
            assert(forall|a: int, b: int|
                0 <= a < b < s.drop_last().len() ==> s.drop_last()[a].clave()
                    != s.drop_last()[b].clave());
        }
        assert(s.drop_last()[i] == s[i]);
        lemma_mapa_actualiza(s.drop_last(), i, x);
        assert(t.drop_last() =~= s.drop_last().update(i, x));
        assert(t.last() == s.last());
        assert(x.clave() != s.last().clave());
        assert(mapa_de(t) == mapa_de(s.drop_last().update(i, x)).insert(
            s.last().clave(),
            s.last(),
        ));
        assert(mapa_de(s.drop_last()).insert(x.clave(), x).insert(s.last().clave(), s.last())
            =~= mapa_de(s.drop_last()).insert(s.last().clave(), s.last()).insert(x.clave(), x));
    }
}

/// Appending a row with a fresh key inserts it into the map.
pub proof fn lemma_mapa_agrega<T: Registro>(s: Seq<T>, x: T)
    requires
        claves_unicas(s),
        forall|i: int| 0 <= i < s.len() ==> s[i].clave() != x.clave(),
    ensures
        claves_unicas(s.push(x)),
        mapa_de(s.push(x)) == mapa_de(s).insert(x.clave(), x),
{
    let t = s.push(x);
    assert(forall|a: int, b: int| 0 <= a < b < t.len() ==> t[a].clave() != t[b].clave());
    assert(t.drop_last() =~= s);
    assert(mapa_de(t) == mapa_de(s).insert(x.clave(), x));
}

/// Inserting under two distinct keys commutes: pull order of rows with
/// non-overlapping identifiers does not affect the final table content.
pub proof fn lemma_insercion_conmuta<T>(m: Map<Seq<char>, T>, k1: Seq<char>, v1: T, k2: Seq<char>, v2: T)
    requires
        k1 != k2,
    ensures
        m.insert(k1, v1).insert(k2, v2) =~= m.insert(k2, v2).insert(k1, v1),
{
}

// ---------------------------------------------------------------------------
// First row matching a predicate
// ---------------------------------------------------------------------------
/// The position of the first element satisfying `p`, if any.
pub open spec fn primer_indice<T>(s: Seq<T>, p: spec_fn(T) -> bool) -> Option<int>
    decreases s.len(),
{
    if s.len() == 0 {
        None
    } else if p(s[0]) {
        Some(0int)
    } else {
        match primer_indice(s.skip(1), p) {
            None => None,
            Some(j) => Some(j + 1),
        }
    }
}

/// What `primer_indice` returns: the least matching position, or a witness
/// that nothing matches.
pub proof fn lemma_primer_indice<T>(s: Seq<T>, p: spec_fn(T) -> bool)
    ensures
        match primer_indice(s, p) {
            None => forall|i: int| 0 <= i < s.len() ==> !p(s[i]),
            Some(j) => 0 <= j < s.len() && p(s[j]) && forall|i: int| 0 <= i < j ==> !p(s[i]),
        },
    decreases s.len(),
{
    if s.len() > 0 && !p(s[0]) {
        lemma_primer_indice(s.skip(1), p);
        assert(forall|i: int| 0 <= i < s.skip(1).len() ==> s.skip(1)[i] == s[i + 1]);
        match primer_indice(s.skip(1), p) {
            None => {
                assert forall|i: int| 1 <= i < s.len() implies !p(s[i]) by {
                    assert(!p(s.skip(1)[i - 1]));
                }
            },
            Some(j) => {
                assert(p(s[j + 1]));
                assert forall|i: int| 1 <= i < j + 1 implies !p(s[i]) by {
                    assert(!p(s.skip(1)[i - 1]));
                }
            },
        }
    }
}

/// A found position together with a clean prefix pins `primer_indice` down.
pub proof fn lemma_primer_indice_es<T>(s: Seq<T>, p: spec_fn(T) -> bool, j: int)
    requires
        0 <= j < s.len(),
        p(s[j]),
        forall|i: int| 0 <= i < j ==> !p(s[i]),
    ensures
        primer_indice(s, p) == Some(j),
{
    lemma_primer_indice(s, p);
    match primer_indice(s, p) {
        None => {
            assert(!p(s[j]));
        },
        Some(j2) => {
            if j2 < j {
                assert(!p(s[j2]));
            }
            if j < j2 {
                assert(!p(s[j]));
            }
        },
    }
}

} // verus!
