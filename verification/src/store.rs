//! The local store: plain in-memory tables mirroring the durable schema.
//!
//! A host program loads these tables from its storage engine at startup and
//! writes changed rows back; every rule about their content lives here.

use vstd::prelude::*;
use crate::modelo::{
    Usuario, UsuarioV, Sucursal, SucursalV, Estudio, EstudioV, Paciente, PacienteV, BarcodePool,
    PoolV, Registro, claves_unicas,
};

verus! {

/// All tables of one installation's store.
pub struct Store {
    pub usuarios: Vec<Usuario>,
    pub sucursales: Vec<Sucursal>,
    pub estudios: Vec<Estudio>,
    pub pacientes: Vec<Paciente>,
    pub pools: Vec<BarcodePool>,
    /// The next local patient identifier to hand out.
    pub siguiente_id_paciente: u64,
}

/// The views of a user table's rows.
pub open spec fn vista_usuarios(v: Seq<Usuario>) -> Seq<UsuarioV> {
    v.map_values(|x: Usuario| x@)
}

/// The views of a branch table's rows.
pub open spec fn vista_sucursales(v: Seq<Sucursal>) -> Seq<SucursalV> {
    v.map_values(|x: Sucursal| x@)
}

/// The views of a study table's rows.
pub open spec fn vista_estudios(v: Seq<Estudio>) -> Seq<EstudioV> {
    v.map_values(|x: Estudio| x@)
}

/// The views of a patient table's rows.
pub open spec fn vista_pacientes(v: Seq<Paciente>) -> Seq<PacienteV> {
    v.map_values(|x: Paciente| x@)
}

/// The views of a pool table's rows.
pub open spec fn vista_pools(v: Seq<BarcodePool>) -> Seq<PoolV> {
    v.map_values(|x: BarcodePool| x@)
}

/// Abstract value of the whole store.
pub struct StoreV {
    pub usuarios: Seq<UsuarioV>,
    pub sucursales: Seq<SucursalV>,
    pub estudios: Seq<EstudioV>,
    pub pacientes: Seq<PacienteV>,
    pub pools: Seq<PoolV>,
    pub siguiente_id_paciente: int,
}

impl View for Store {
    type V = StoreV;

    open spec fn view(&self) -> StoreV {
        StoreV {
            usuarios: vista_usuarios(self.usuarios@),
            sucursales: vista_sucursales(self.sucursales@),
            estudios: vista_estudios(self.estudios@),
            pacientes: vista_pacientes(self.pacientes@),
            pools: vista_pools(self.pools@),
            siguiente_id_paciente: self.siguiente_id_paciente as int,
        }
    }
}

impl Registro for PoolV {
    open spec fn clave(&self) -> Seq<char> {
        self.lote_id
    }
}

/// No two patient rows share a local identifier.
pub open spec fn ids_locales_unicos(ps: Seq<PacienteV>) -> bool {
    forall|i: int, j: int| 0 <= i < j < ps.len() ==> ps[i].id_local != ps[j].id_local
}

impl StoreV {
    /// Well-formedness of the store: catalog tables are keyed by unique
    /// remote identifiers, pool lots are registered at most once and each
    /// pool row respects its range, and patient identifiers are unique and
    /// below the hand-out counter.
    pub open spec fn wf(self) -> bool {
        &&& claves_unicas(self.usuarios)
        &&& claves_unicas(self.sucursales)
        &&& claves_unicas(self.estudios)
        &&& claves_unicas(self.pools)
        &&& (forall|i: int| 0 <= i < self.pools.len() ==> (#[trigger] self.pools[i]).valido())
        &&& ids_locales_unicos(self.pacientes)
        &&& (forall|i: int|
            0 <= i < self.pacientes.len() ==> (#[trigger] self.pacientes[i]).id_local
                < self.siguiente_id_paciente)
        &&& 1 <= self.siguiente_id_paciente
    }
}

impl Store {
    /// An empty store, as created on a terminal's first run.
    pub fn nuevo() -> (s: Store)
        ensures
            s@.wf(),
            s@.usuarios.len() == 0,
            s@.sucursales.len() == 0,
            s@.estudios.len() == 0,
            s@.pacientes.len() == 0,
            s@.pools.len() == 0,
            s@.siguiente_id_paciente == 1,
    {
        Store {
            usuarios: Vec::new(),
            sucursales: Vec::new(),
            estudios: Vec::new(),
            pacientes: Vec::new(),
            pools: Vec::new(),
            siguiente_id_paciente: 1,
        }
    }
}

} // verus!
