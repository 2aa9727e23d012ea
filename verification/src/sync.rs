//! Reconciliation logic of the synchronization engine.
//!
//! A host program performs the network transfers on its own schedule and
//! hands the decoded responses (or the fact that a transfer failed) to the
//! functions here, which apply them to the local store:
//!
//! - catalog pulls upsert rows keyed by the remote identifier, later values
//!   winning, and a failed or unsuccessful response changes nothing;
//! - pool pulls register a lot at most once and never touch an existing
//!   pool row, so locally consumed numbers are never reset;
//! - the push side selects the patients still to upload, builds their exact
//!   payloads, and marks a patient synchronized only on a confirmed upload.

use vstd::prelude::*;
use crate::modelo::{
    Usuario, UsuarioV, Sucursal, SucursalV, Estudio, EstudioV, Paciente, PacienteV, BarcodePool,
    PoolV, Registro, claves_unicas, mapa_de, lemma_mapa_actualiza, lemma_mapa_agrega,
    primer_indice, lemma_primer_indice, lemma_primer_indice_es,
};
use crate::store::{
    Store, vista_usuarios, vista_sucursales, vista_estudios, vista_pacientes,
};

verus! {

// ---------------------------------------------------------------------------
// Decoded remote payloads
// ---------------------------------------------------------------------------
/// One user entry of a catalog pull; optional fields may be absent.
pub struct UsuarioServer {
    pub id: String,
    pub nombre: String,
    pub apellido: Option<String>,
    pub rol: Option<String>,
    pub sucursal: Option<String>,
}

/// Abstract value of a pulled user entry.
pub struct UsuarioServerV {
    pub id: Seq<char>,
    pub nombre: Seq<char>,
    pub apellido: Option<Seq<char>>,
    pub rol: Option<Seq<char>>,
    pub sucursal: Option<Seq<char>>,
}

/// The view of an optional text field.
pub open spec fn vista_opcional(o: Option<String>) -> Option<Seq<char>> {
    match o {
        Some(s) => Some(s@),
        None => None,
    }
}

impl View for UsuarioServer {
    type V = UsuarioServerV;

    open spec fn view(&self) -> UsuarioServerV {
        UsuarioServerV {
            id: self.id@,
            nombre: self.nombre@,
            apellido: vista_opcional(self.apellido),
            rol: vista_opcional(self.rol),
            sucursal: vista_opcional(self.sucursal),
        }
    }
}

/// The body of a user catalog pull.
pub struct ServerResponseUsuarios {
    pub success: bool,
    pub data: Vec<UsuarioServer>,
}

/// Abstract value of a user pull body.
pub struct ServerResponseUsuariosV {
    pub success: bool,
    pub data: Seq<UsuarioServerV>,
}

impl View for ServerResponseUsuarios {
    type V = ServerResponseUsuariosV;

    open spec fn view(&self) -> ServerResponseUsuariosV {
        ServerResponseUsuariosV {
            success: self.success,
            data: self.data@.map_values(|d: UsuarioServer| d@),
        }
    }
}

/// One study entry of a catalog pull. The price arrives as its decimal
/// text, already rendered by the transport layer.
pub struct EstudioServer {
    pub id: String,
    pub nombre: String,
    pub codigo: Option<String>,
    pub precio: Option<String>,
    pub categoria: Option<String>,
}

/// Abstract value of a pulled study entry.
pub struct EstudioServerV {
    pub id: Seq<char>,
    pub nombre: Seq<char>,
    pub codigo: Option<Seq<char>>,
    pub precio: Option<Seq<char>>,
    pub categoria: Option<Seq<char>>,
}

impl View for EstudioServer {
    type V = EstudioServerV;

    open spec fn view(&self) -> EstudioServerV {
        EstudioServerV {
            id: self.id@,
            nombre: self.nombre@,
            codigo: vista_opcional(self.codigo),
            precio: vista_opcional(self.precio),
            categoria: vista_opcional(self.categoria),
        }
    }
}

/// The body of a study catalog pull.
pub struct ServerResponseEstudios {
    pub success: bool,
    pub data: Vec<EstudioServer>,
}

/// Abstract value of a study pull body.
pub struct ServerResponseEstudiosV {
    pub success: bool,
    pub data: Seq<EstudioServerV>,
}

impl View for ServerResponseEstudios {
    type V = ServerResponseEstudiosV;

    open spec fn view(&self) -> ServerResponseEstudiosV {
        ServerResponseEstudiosV {
            success: self.success,
            data: self.data@.map_values(|d: EstudioServer| d@),
        }
    }
}

/// One branch entry of a catalog pull.
pub struct SucursalServer {
    pub id: String,
    pub nombre: String,
}

/// Abstract value of a pulled branch entry.
pub struct SucursalServerV {
    pub id: Seq<char>,
    pub nombre: Seq<char>,
}

impl View for SucursalServer {
    type V = SucursalServerV;

    open spec fn view(&self) -> SucursalServerV {
        SucursalServerV { id: self.id@, nombre: self.nombre@ }
    }
}

/// The body of a branch catalog pull.
pub struct ServerResponseSucursales {
    pub success: bool,
    pub data: Vec<SucursalServer>,
}

/// Abstract value of a branch pull body.
pub struct ServerResponseSucursalesV {
    pub success: bool,
    pub data: Seq<SucursalServerV>,
}

impl View for ServerResponseSucursales {
    type V = ServerResponseSucursalesV;

    open spec fn view(&self) -> ServerResponseSucursalesV {
        ServerResponseSucursalesV {
            success: self.success,
            data: self.data@.map_values(|d: SucursalServer| d@),
        }
    }
}

/// A pool lot as the remote authority describes it.
pub struct PoolInfo {
    pub lote_id: String,
    pub prefijo: String,
    pub rango_inicio: i64,
    pub rango_fin: i64,
    pub ultimo_sincronizado: i64,
}

/// Abstract value of a pulled pool lot.
pub struct PoolInfoV {
    pub lote_id: Seq<char>,
    pub prefijo: Seq<char>,
    pub rango_inicio: int,
    pub rango_fin: int,
    pub ultimo_sincronizado: int,
}

impl View for PoolInfo {
    type V = PoolInfoV;

    open spec fn view(&self) -> PoolInfoV {
        PoolInfoV {
            lote_id: self.lote_id@,
            prefijo: self.prefijo@,
            rango_inicio: self.rango_inicio as int,
            rango_fin: self.rango_fin as int,
            ultimo_sincronizado: self.ultimo_sincronizado as int,
        }
    }
}

/// The body of a pool pull for one branch.
pub struct ServerResponsePool {
    pub success: bool,
    pub pool: Option<PoolInfo>,
}

/// Abstract value of a pool pull body.
pub struct ServerResponsePoolV {
    pub success: bool,
    pub pool: Option<PoolInfoV>,
}

impl View for ServerResponsePool {
    type V = ServerResponsePoolV;

    open spec fn view(&self) -> ServerResponsePoolV {
        ServerResponsePoolV {
            success: self.success,
            pool: match self.pool {
                Some(p) => Some(p@),
                None => None,
            },
        }
    }
}

// ---------------------------------------------------------------------------
// Default substitution for absent fields
// ---------------------------------------------------------------------------
/// An absent text field defaults to the empty string.
pub open spec fn o_vacio(o: Option<Seq<char>>) -> Seq<char> {
    match o {
        Some(s) => s,
        None => Seq::empty(),
    }
}

/// An absent price defaults to zero.
pub open spec fn o_cero(o: Option<Seq<char>>) -> Seq<char> {
    match o {
        Some(s) => s,
        None => seq!['0'],
    }
}

/// The local rows a batch of pulled user entries denotes.
pub open spec fn filas_usuarios(data: Seq<UsuarioServerV>) -> Seq<UsuarioV> {
    data.map_values(|d: UsuarioServerV| usuario_de_servidor(d))
}

/// The local rows a batch of pulled study entries denotes.
pub open spec fn filas_estudios(data: Seq<EstudioServerV>) -> Seq<EstudioV> {
    data.map_values(|d: EstudioServerV| estudio_de_servidor(d))
}

/// The local rows a batch of pulled branch entries denotes.
pub open spec fn filas_sucursales(data: Seq<SucursalServerV>) -> Seq<SucursalV> {
    data.map_values(|d: SucursalServerV| sucursal_de_servidor(d))
}

/// The local row a pulled user entry denotes, defaults substituted.
pub open spec fn usuario_de_servidor(d: UsuarioServerV) -> UsuarioV {
    UsuarioV {
        id: d.id,
        nombre: d.nombre,
        apellido: o_vacio(d.apellido),
        rol: o_vacio(d.rol),
        sucursal_id: o_vacio(d.sucursal),
    }
}

/// The local row a pulled study entry denotes, defaults substituted.
pub open spec fn estudio_de_servidor(d: EstudioServerV) -> EstudioV {
    EstudioV {
        id: d.id,
        nombre: d.nombre,
        codigo: o_vacio(d.codigo),
        precio: o_cero(d.precio),
        categoria: o_vacio(d.categoria),
    }
}

/// The local row a pulled branch entry denotes.
pub open spec fn sucursal_de_servidor(d: SucursalServerV) -> SucursalV {
    SucursalV { id: d.id, nombre: d.nombre }
}

fn opcion_o_vacia(o: &Option<String>) -> (s: String)
    ensures
        s@ == o_vacio(vista_opcional(*o)),
{
    match o {
        Some(x) => x.clone(),
        None => String::new(),
    }
}

fn opcion_o_cero(o: &Option<String>) -> (s: String)
    ensures
        s@ == o_cero(vista_opcional(*o)),
{
    match o {
        Some(x) => x.clone(),
        None => {
            let s = "0".to_owned();
            proof {
                reveal_strlit("0");
                assert(s@ =~= seq!['0']);
            }
            s
        },
    }
}

// ---------------------------------------------------------------------------
// Idempotent catalog upserts
// ---------------------------------------------------------------------------
/// A batch of keyed rows applied to a table's map, first entry first:
/// a later entry with the same key wins.
pub open spec fn aplicar_lote<T: Registro>(m: Map<Seq<char>, T>, datos: Seq<T>) -> Map<
    Seq<char>,
    T,
>
    decreases datos.len(),
{
    if datos.len() == 0 {
        m
    } else {
        aplicar_lote(m.insert(datos[0].clave(), datos[0]), datos.skip(1))
    }
}

fn upsert_usuario(usuarios: &mut Vec<Usuario>, u: Usuario)
    requires
        claves_unicas(vista_usuarios(old(usuarios)@)),
    ensures
        claves_unicas(vista_usuarios(final(usuarios)@)),
        mapa_de(vista_usuarios(final(usuarios)@)) == mapa_de(
            vista_usuarios(old(usuarios)@),
        ).insert(u@.clave(), u@),
{
    let ghost antes = vista_usuarios(usuarios@);
    let ghost uv = u@;
    let mut j: usize = 0;
    while j < usuarios.len()
        invariant
            j <= usuarios.len(),
            vista_usuarios(usuarios@) == antes,
            antes == vista_usuarios(old(usuarios)@),
            antes.len() == usuarios.len(),
            claves_unicas(antes),
            uv == u@,
            forall|k: int| 0 <= k < j ==> antes[k].clave() != uv.clave(),
        decreases usuarios.len() - j,
    {
        if usuarios[j].id == u.id {
            proof {
                assert(antes[j as int] == usuarios@[j as int]@);
                assert(antes[j as int].clave() == uv.clave());
            }
            usuarios[j] = u;
            proof {
                assert(vista_usuarios(usuarios@) =~= antes.update(j as int, uv));
                lemma_mapa_actualiza(antes, j as int, uv);
            }
            return ;
        }
        proof {
            assert(antes[j as int] == usuarios@[j as int]@);
        }
        j = j + 1;
    }
    usuarios.push(u);
    proof {
        assert(vista_usuarios(usuarios@) =~= antes.push(uv));
        lemma_mapa_agrega(antes, uv);
    }
}

fn upsert_estudio(estudios: &mut Vec<Estudio>, e: Estudio)
    requires
        claves_unicas(vista_estudios(old(estudios)@)),
    ensures
        claves_unicas(vista_estudios(final(estudios)@)),
        mapa_de(vista_estudios(final(estudios)@)) == mapa_de(
            vista_estudios(old(estudios)@),
        ).insert(e@.clave(), e@),
{
    let ghost antes = vista_estudios(estudios@);
    let ghost ev = e@;
    let mut j: usize = 0;
    while j < estudios.len()
        invariant
            j <= estudios.len(),
            vista_estudios(estudios@) == antes,
            antes == vista_estudios(old(estudios)@),
            antes.len() == estudios.len(),
            claves_unicas(antes),
            ev == e@,
            forall|k: int| 0 <= k < j ==> antes[k].clave() != ev.clave(),
        decreases estudios.len() - j,
    {
        if estudios[j].id == e.id {
            proof {
                assert(antes[j as int] == estudios@[j as int]@);
                assert(antes[j as int].clave() == ev.clave());
            }
            estudios[j] = e;
            proof {
                assert(vista_estudios(estudios@) =~= antes.update(j as int, ev));
                lemma_mapa_actualiza(antes, j as int, ev);
            }
            return ;
        }
        proof {
            assert(antes[j as int] == estudios@[j as int]@);
        }
        j = j + 1;
    }
    estudios.push(e);
    proof {
        assert(vista_estudios(estudios@) =~= antes.push(ev));
        lemma_mapa_agrega(antes, ev);
    }
}

fn upsert_sucursal(sucursales: &mut Vec<Sucursal>, s: Sucursal)
    requires
        claves_unicas(vista_sucursales(old(sucursales)@)),
    ensures
        claves_unicas(vista_sucursales(final(sucursales)@)),
        mapa_de(vista_sucursales(final(sucursales)@)) == mapa_de(
            vista_sucursales(old(sucursales)@),
        ).insert(s@.clave(), s@),
{
    let ghost antes = vista_sucursales(sucursales@);
    let ghost sv = s@;
    let mut j: usize = 0;
    while j < sucursales.len()
        invariant
            j <= sucursales.len(),
            vista_sucursales(sucursales@) == antes,
            antes == vista_sucursales(old(sucursales)@),
            antes.len() == sucursales.len(),
            claves_unicas(antes),
            sv == s@,
            forall|k: int| 0 <= k < j ==> antes[k].clave() != sv.clave(),
        decreases sucursales.len() - j,
    {
        if sucursales[j].id == s.id {
            proof {
                assert(antes[j as int] == sucursales@[j as int]@);
                assert(antes[j as int].clave() == sv.clave());
            }
            sucursales[j] = s;
            proof {
                assert(vista_sucursales(sucursales@) =~= antes.update(j as int, sv));
                lemma_mapa_actualiza(antes, j as int, sv);
            }
            return ;
        }
        proof {
            assert(antes[j as int] == sucursales@[j as int]@);
        }
        j = j + 1;
    }
    sucursales.push(s);
    proof {
        assert(vista_sucursales(sucursales@) =~= antes.push(sv));
        lemma_mapa_agrega(antes, sv);
    }
}

// ---------------------------------------------------------------------------
// Catalog pulls
// ---------------------------------------------------------------------------
/// Applies one user catalog pull. A missing or unsuccessful response leaves
/// the mirror untouched; a successful one upserts every entry in order,
/// keyed by the remote identifier.
pub fn sincronizar_usuarios(store: &mut Store, respuesta: &Option<ServerResponseUsuarios>)
    requires
        old(store)@.wf(),
    ensures
        final(store)@.wf(),
        final(store)@.sucursales == old(store)@.sucursales,
        final(store)@.estudios == old(store)@.estudios,
        final(store)@.pacientes == old(store)@.pacientes,
        final(store)@.pools == old(store)@.pools,
        final(store)@.siguiente_id_paciente == old(store)@.siguiente_id_paciente,
        match *respuesta {
            Some(r) => {
                if r.success {
                    mapa_de(final(store)@.usuarios) == aplicar_lote(
                        mapa_de(old(store)@.usuarios),
                        filas_usuarios(r@.data),
                    )
                } else {
                    final(store)@.usuarios == old(store)@.usuarios
                }
            },
            None => final(store)@.usuarios == old(store)@.usuarios,
        },
{
    match respuesta {
        None => {},
        Some(r) => {
            if r.success {
                let ghost datos = filas_usuarios(r@.data);
                let ghost m0 = mapa_de(old(store)@.usuarios);
                proof {
                    assert(datos.skip(0) =~= datos);
                }
                let mut i: usize = 0;
                while i < r.data.len()
                    invariant
                        old(store)@.wf(),
                        i <= r.data.len(),
                        datos == filas_usuarios(r@.data),
                        datos.len() == r.data.len(),
                        m0 == mapa_de(old(store)@.usuarios),
                        claves_unicas(store@.usuarios),
                        aplicar_lote(mapa_de(store@.usuarios), datos.skip(i as int)) == aplicar_lote(
                            m0,
                            datos,
                        ),
                        store@.sucursales == old(store)@.sucursales,
                        store@.estudios == old(store)@.estudios,
                        store@.pacientes == old(store)@.pacientes,
                        store@.pools == old(store)@.pools,
                        store@.siguiente_id_paciente == old(store)@.siguiente_id_paciente,
                    decreases r.data.len() - i,
                {
                    let d = &r.data[i];
                    let u = Usuario {
                        id: d.id.clone(),
                        nombre: d.nombre.clone(),
                        apellido: opcion_o_vacia(&d.apellido),
                        rol: opcion_o_vacia(&d.rol),
                        sucursal_id: opcion_o_vacia(&d.sucursal),
                    };
                    proof {
                        assert(r@.data[i as int] == r.data@[i as int]@);
                        assert(u@ == usuario_de_servidor(r@.data[i as int]));
                        assert(datos[i as int] == u@);
                        assert(datos.skip(i as int)[0] == datos[i as int]);
                        assert(datos.skip(i as int).skip(1) =~= datos.skip(i as int + 1));
                    }
                    let ghost m_antes = mapa_de(store@.usuarios);
                    upsert_usuario(&mut store.usuarios, u);
                    proof {
                        assert(mapa_de(store@.usuarios) == m_antes.insert(
                            datos[i as int].clave(),
                            datos[i as int],
                        ));
                        assert(aplicar_lote(m_antes, datos.skip(i as int)) == aplicar_lote(
                            mapa_de(store@.usuarios),
                            datos.skip(i as int + 1),
                        ));
                    }
                    i = i + 1;
                }
                proof {
                    assert(datos.skip(datos.len() as int) =~= Seq::<UsuarioV>::empty());
                }
            }
        },
    }
}

/// Applies one study catalog pull, exactly as `sincronizar_usuarios` does
/// for users; an absent price defaults to zero.
pub fn sincronizar_estudios(store: &mut Store, respuesta: &Option<ServerResponseEstudios>)
    requires
        old(store)@.wf(),
    ensures
        final(store)@.wf(),
        final(store)@.usuarios == old(store)@.usuarios,
        final(store)@.sucursales == old(store)@.sucursales,
        final(store)@.pacientes == old(store)@.pacientes,
        final(store)@.pools == old(store)@.pools,
        final(store)@.siguiente_id_paciente == old(store)@.siguiente_id_paciente,
        match *respuesta {
            Some(r) => {
                if r.success {
                    mapa_de(final(store)@.estudios) == aplicar_lote(
                        mapa_de(old(store)@.estudios),
                        filas_estudios(r@.data),
                    )
                } else {
                    final(store)@.estudios == old(store)@.estudios
                }
            },
            None => final(store)@.estudios == old(store)@.estudios,
        },
{
    match respuesta {
        None => {},
        Some(r) => {
            if r.success {
                let ghost datos = filas_estudios(r@.data);
                let ghost m0 = mapa_de(old(store)@.estudios);
                proof {
                    assert(datos.skip(0) =~= datos);
                }
                let mut i: usize = 0;
                while i < r.data.len()
                    invariant
                        old(store)@.wf(),
                        i <= r.data.len(),
                        datos == filas_estudios(r@.data),
                        datos.len() == r.data.len(),
                        m0 == mapa_de(old(store)@.estudios),
                        claves_unicas(store@.estudios),
                        aplicar_lote(mapa_de(store@.estudios), datos.skip(i as int)) == aplicar_lote(
                            m0,
                            datos,
                        ),
                        store@.usuarios == old(store)@.usuarios,
                        store@.sucursales == old(store)@.sucursales,
                        store@.pacientes == old(store)@.pacientes,
                        store@.pools == old(store)@.pools,
                        store@.siguiente_id_paciente == old(store)@.siguiente_id_paciente,
                    decreases r.data.len() - i,
                {
                    let d = &r.data[i];
                    let e = Estudio {
                        id: d.id.clone(),
                        nombre: d.nombre.clone(),
                        codigo: opcion_o_vacia(&d.codigo),
                        precio: opcion_o_cero(&d.precio),
                        categoria: opcion_o_vacia(&d.categoria),
                    };
                    proof {
                        assert(r@.data[i as int] == r.data@[i as int]@);
                        assert(e@ == estudio_de_servidor(r@.data[i as int]));
                        assert(datos[i as int] == e@);
                        assert(datos.skip(i as int)[0] == datos[i as int]);
                        assert(datos.skip(i as int).skip(1) =~= datos.skip(i as int + 1));
                    }
                    let ghost m_antes = mapa_de(store@.estudios);
                    upsert_estudio(&mut store.estudios, e);
                    proof {
                        assert(aplicar_lote(m_antes, datos.skip(i as int)) == aplicar_lote(
                            mapa_de(store@.estudios),
                            datos.skip(i as int + 1),
                        ));
                    }
                    i = i + 1;
                }
                proof {
                    assert(datos.skip(datos.len() as int) =~= Seq::<EstudioV>::empty());
                }
            }
        },
    }
}

/// Applies one branch catalog pull, exactly as `sincronizar_usuarios` does
/// for users.
pub fn sincronizar_sucursales(store: &mut Store, respuesta: &Option<ServerResponseSucursales>)
    requires
        old(store)@.wf(),
    ensures
        final(store)@.wf(),
        final(store)@.usuarios == old(store)@.usuarios,
        final(store)@.estudios == old(store)@.estudios,
        final(store)@.pacientes == old(store)@.pacientes,
        final(store)@.pools == old(store)@.pools,
        final(store)@.siguiente_id_paciente == old(store)@.siguiente_id_paciente,
        match *respuesta {
            Some(r) => {
                if r.success {
                    mapa_de(final(store)@.sucursales) == aplicar_lote(
                        mapa_de(old(store)@.sucursales),
                        filas_sucursales(r@.data),
                    )
                } else {
                    final(store)@.sucursales == old(store)@.sucursales
                }
            },
            None => final(store)@.sucursales == old(store)@.sucursales,
        },
{
    match respuesta {
        None => {},
        Some(r) => {
            if r.success {
                let ghost datos = filas_sucursales(r@.data);
                let ghost m0 = mapa_de(old(store)@.sucursales);
                proof {
                    assert(datos.skip(0) =~= datos);
                }
                let mut i: usize = 0;
                while i < r.data.len()
                    invariant
                        old(store)@.wf(),
                        i <= r.data.len(),
                        datos == filas_sucursales(r@.data),
                        datos.len() == r.data.len(),
                        m0 == mapa_de(old(store)@.sucursales),
                        claves_unicas(store@.sucursales),
                        aplicar_lote(mapa_de(store@.sucursales), datos.skip(i as int))
                            == aplicar_lote(m0, datos),
                        store@.usuarios == old(store)@.usuarios,
                        store@.estudios == old(store)@.estudios,
                        store@.pacientes == old(store)@.pacientes,
                        store@.pools == old(store)@.pools,
                        store@.siguiente_id_paciente == old(store)@.siguiente_id_paciente,
                    decreases r.data.len() - i,
                {
                    let d = &r.data[i];
                    let s = Sucursal { id: d.id.clone(), nombre: d.nombre.clone() };
                    proof {
                        assert(r@.data[i as int] == r.data@[i as int]@);
                        assert(s@ == sucursal_de_servidor(r@.data[i as int]));
                        assert(datos[i as int] == s@);
                        assert(datos.skip(i as int)[0] == datos[i as int]);
                        assert(datos.skip(i as int).skip(1) =~= datos.skip(i as int + 1));
                    }
                    let ghost m_antes = mapa_de(store@.sucursales);
                    upsert_sucursal(&mut store.sucursales, s);
                    proof {
                        assert(aplicar_lote(m_antes, datos.skip(i as int)) == aplicar_lote(
                            mapa_de(store@.sucursales),
                            datos.skip(i as int + 1),
                        ));
                    }
                    i = i + 1;
                }
                proof {
                    assert(datos.skip(datos.len() as int) =~= Seq::<SucursalV>::empty());
                }
            }
        },
    }
}

// ---------------------------------------------------------------------------
// Pool pulls: create-once registration
// ---------------------------------------------------------------------------
/// Some pool row already carries lot `l`.
pub open spec fn existe_lote(pools: Seq<PoolV>, l: Seq<char>) -> bool {
    exists|i: int| 0 <= i < pools.len() && pools[i].lote_id == l
}

/// A pulled lot is acceptable when its range starts at one or later and its
/// cloud cursor sits inside `[rango_inicio - 1, rango_fin]`.
pub open spec fn info_valida(p: PoolInfoV) -> bool {
    &&& 1 <= p.rango_inicio
    &&& p.rango_inicio - 1 <= p.ultimo_sincronizado <= p.rango_fin
}

/// The fresh local pool row a pulled lot denotes: an invoice pool, not
/// exhausted, its cursor taken from the cloud.
pub open spec fn pool_de_info(p: PoolInfoV) -> PoolV {
    PoolV {
        lote_id: p.lote_id,
        tipo: "FACTURA"@,
        prefijo: p.prefijo,
        rango_inicio: p.rango_inicio,
        rango_fin: p.rango_fin,
        ultimo_usado: p.ultimo_sincronizado,
        agotado: false,
    }
}

/// Registration of one pulled lot: a lot already present, or one whose
/// range is unacceptable, changes nothing; a fresh acceptable lot is
/// appended. Existing rows are never touched.
pub open spec fn spec_registrar(pools: Seq<PoolV>, p: PoolInfoV) -> Seq<PoolV> {
    if existe_lote(pools, p.lote_id) || !info_valida(p) {
        pools
    } else {
        pools.push(pool_de_info(p))
    }
}

/// Registers one pulled lot, exactly as `spec_registrar` states.
pub fn registrar_pool(store: &mut Store, info: &PoolInfo)
    requires
        old(store)@.wf(),
    ensures
        final(store)@.wf(),
        final(store)@.pools == spec_registrar(old(store)@.pools, info@),
        final(store)@.usuarios == old(store)@.usuarios,
        final(store)@.sucursales == old(store)@.sucursales,
        final(store)@.estudios == old(store)@.estudios,
        final(store)@.pacientes == old(store)@.pacientes,
        final(store)@.siguiente_id_paciente == old(store)@.siguiente_id_paciente,
{
    let ghost vp = old(store)@.pools;
    let mut j: usize = 0;
    while j < store.pools.len()
        invariant
            old(store)@.wf(),
            store@ == old(store)@,
            vp == store@.pools,
            j <= store.pools.len(),
            store.pools.len() == vp.len(),
            forall|k: int| 0 <= k < j ==> vp[k].lote_id != info@.lote_id,
        decreases store.pools.len() - j,
    {
        if store.pools[j].lote_id == info.lote_id {
            proof {
                assert(vp[j as int] == store.pools@[j as int]@);
                assert(existe_lote(vp, info@.lote_id));
            }
            return ;
        }
        proof {
            assert(vp[j as int] == store.pools@[j as int]@);
        }
        j = j + 1;
    }
    proof {
        assert(!existe_lote(vp, info@.lote_id));
    }
    if !(info.rango_inicio >= 1 && info.rango_inicio - 1 <= info.ultimo_sincronizado
        && info.ultimo_sincronizado <= info.rango_fin) {
        proof {
            assert(!info_valida(info@));
        }
        return ;
    }
    let nuevo = BarcodePool {
        lote_id: info.lote_id.clone(),
        tipo: "FACTURA".to_owned(),
        prefijo: info.prefijo.clone(),
        rango_inicio: info.rango_inicio as u64,
        rango_fin: info.rango_fin as u64,
        ultimo_usado: info.ultimo_sincronizado as u64,
        agotado: false,
    };
    proof {
        assert(nuevo@ == pool_de_info(info@));
        assert(nuevo@.valido());
        lemma_mapa_agrega(vp, nuevo@);
    }
    store.pools.push(nuevo);
    proof {
        assert(store@.pools =~= vp.push(pool_de_info(info@)));
        assert forall|k: int| 0 <= k < store@.pools.len() implies (
        #[trigger] store@.pools[k]).valido() by {
            if k < vp.len() {
                assert(store@.pools[k] == vp[k]);
            }
        }
    }
}

/// One pull answer applied to the pool table: only a successful answer that
/// carries a lot registers anything.
pub open spec fn aplicar_respuesta_pool(pools: Seq<PoolV>, r: ServerResponsePoolV) -> Seq<PoolV> {
    if r.success && r.pool is Some {
        spec_registrar(pools, r.pool->Some_0)
    } else {
        pools
    }
}

/// A batch of pull answers applied in order.
pub open spec fn registrar_lote(pools: Seq<PoolV>, rs: Seq<ServerResponsePoolV>) -> Seq<PoolV>
    decreases rs.len(),
{
    if rs.len() == 0 {
        pools
    } else {
        registrar_lote(aplicar_respuesta_pool(pools, rs[0]), rs.skip(1))
    }
}

/// The views of a batch of pool pull answers.
pub open spec fn vista_respuestas_pool(v: Seq<ServerResponsePool>) -> Seq<ServerResponsePoolV> {
    v.map_values(|r: ServerResponsePool| r@)
}

/// Applies the pool pull answers of one cycle, registering each fresh lot
/// once and never updating an existing pool row.
pub fn sincronizar_pools(store: &mut Store, respuestas: &Vec<ServerResponsePool>)
    requires
        old(store)@.wf(),
    ensures
        final(store)@.wf(),
        final(store)@.pools == registrar_lote(
            old(store)@.pools,
            vista_respuestas_pool(respuestas@),
        ),
        final(store)@.usuarios == old(store)@.usuarios,
        final(store)@.sucursales == old(store)@.sucursales,
        final(store)@.estudios == old(store)@.estudios,
        final(store)@.pacientes == old(store)@.pacientes,
        final(store)@.siguiente_id_paciente == old(store)@.siguiente_id_paciente,
{
    let ghost rs = vista_respuestas_pool(respuestas@);
    let ghost p0 = old(store)@.pools;
    proof {
        assert(rs.skip(0) =~= rs);
    }
    let mut i: usize = 0;
    while i < respuestas.len()
        invariant
            old(store)@.wf(),
            store@.wf(),
            i <= respuestas.len(),
            rs == vista_respuestas_pool(respuestas@),
            rs.len() == respuestas.len(),
            p0 == old(store)@.pools,
            registrar_lote(store@.pools, rs.skip(i as int)) == registrar_lote(p0, rs),
            store@.usuarios == old(store)@.usuarios,
            store@.sucursales == old(store)@.sucursales,
            store@.estudios == old(store)@.estudios,
            store@.pacientes == old(store)@.pacientes,
            store@.siguiente_id_paciente == old(store)@.siguiente_id_paciente,
        decreases respuestas.len() - i,
    {
        let r = &respuestas[i];
        proof {
            assert(rs[i as int] == respuestas@[i as int]@);
            assert(rs.skip(i as int)[0] == rs[i as int]);
            assert(rs.skip(i as int).skip(1) =~= rs.skip(i as int + 1));
        }
        let ghost pools_antes = store@.pools;
        if r.success {
            match &r.pool {
                Some(p) => {
                    registrar_pool(store, p);
                    proof {
                        assert(rs[i as int].pool == Some(p@));
                        assert(store@.pools == aplicar_respuesta_pool(pools_antes, rs[i as int]));
                    }
                },
                None => {
                    proof {
                        assert(store@.pools == aplicar_respuesta_pool(pools_antes, rs[i as int]));
                    }
                },
            }
        } else {
            proof {
                assert(store@.pools == aplicar_respuesta_pool(pools_antes, rs[i as int]));
            }
        }
        i = i + 1;
    }
    proof {
        assert(rs.skip(rs.len() as int) =~= Seq::<ServerResponsePoolV>::empty());
    }
}

/// The distinct, non-empty branch identifiers of the mirrored users: the
/// branches whose invoice pool the engine asks the remote authority for.
pub fn sucursales_activas(store: &Store) -> (res: Vec<String>)
    ensures
        forall|k1: int, k2: int| 0 <= k1 < k2 < res@.len() ==> res@[k1]@ != res@[k2]@,
        forall|k: int|
            0 <= k < res@.len() ==> (#[trigger] res@[k])@.len() > 0 && exists|i: int|
                0 <= i < store@.usuarios.len() && store@.usuarios[i].sucursal_id == res@[k]@,
        forall|i: int|
            0 <= i < store@.usuarios.len() && (#[trigger] store@.usuarios[i]).sucursal_id.len() > 0
                ==> exists|k: int| 0 <= k < res@.len() && res@[k]@ == store@.usuarios[i].sucursal_id,
{
    let ghost us = store@.usuarios;
    let mut res: Vec<String> = Vec::new();
    let mut i: usize = 0;
    while i < store.usuarios.len()
        invariant
            us == store@.usuarios,
            i <= store.usuarios.len(),
            us.len() == store.usuarios.len(),
            forall|k1: int, k2: int| 0 <= k1 < k2 < res@.len() ==> res@[k1]@ != res@[k2]@,
            forall|k: int|
                0 <= k < res@.len() ==> (#[trigger] res@[k])@.len() > 0 && exists|i2: int|
                    0 <= i2 < us.len() && us[i2].sucursal_id == res@[k]@,
            forall|i2: int|
                0 <= i2 < i && (#[trigger] us[i2]).sucursal_id.len() > 0 ==> exists|k: int|
                    0 <= k < res@.len() && res@[k]@ == us[i2].sucursal_id,
        decreases store.usuarios.len() - i,
    {
        let ghost res_antes = res@;
        let s = &store.usuarios[i].sucursal_id;
        proof {
            assert(us[i as int] == store.usuarios@[i as int]@);
            assert(s@ == us[i as int].sucursal_id);
        }
        if !s.as_str().is_empty() {
            let mut k: usize = 0;
            let mut repetida: bool = false;
            while k < res.len()
                invariant
                    k <= res.len(),
                    res@ == res_antes,
                    s@ == us[i as int].sucursal_id,
                    us[i as int] == store.usuarios@[i as int]@,
                    repetida <==> exists|k2: int| 0 <= k2 < k && res@[k2]@ == s@,
                decreases res.len() - k,
            {
                if res[k] == *s {
                    repetida = true;
                    proof {
                        assert(res@[k as int]@ == s@);
                    }
                }
                k = k + 1;
            }
            if !repetida {
                res.push(s.clone());
            }
            proof {
                assert forall|i2: int|
                    0 <= i2 < i as int + 1 && (#[trigger] us[i2]).sucursal_id.len()
                        > 0 implies exists|k2: int|
                    0 <= k2 < res@.len() && res@[k2]@ == us[i2].sucursal_id by {
                    if i2 < i as int {
                        let k2 = choose|k2: int|
                            0 <= k2 < res_antes.len() && res_antes[k2]@ == us[i2].sucursal_id;
                        assert(res@[k2]@ == us[i2].sucursal_id);
                    } else {
                        if repetida {
                            let k2 = choose|k2: int| 0 <= k2 < res_antes.len() && res_antes[k2]@
                                == s@;
                            assert(res@[k2]@ == us[i2].sucursal_id);
                        } else {
                            assert(res@[res@.len() - 1]@ == s@);
                        }
                    }
                }
            }
        } else {
            proof {
                assert(us[i as int].sucursal_id.len() == 0);
            }
        }
        i = i + 1;
    }
    res
}

// ---------------------------------------------------------------------------
// Push side: uploading locally created patients
// ---------------------------------------------------------------------------
/// The patients still waiting to be uploaded, in row order.
pub open spec fn pendientes(ps: Seq<PacienteV>) -> Seq<PacienteV> {
    ps.filter(|p: PacienteV| !p.sincronizado)
}

/// Selects every patient not yet synchronized, as copies, in row order.
pub fn pacientes_pendientes(store: &Store) -> (res: Vec<Paciente>)
    ensures
        vista_pacientes(res@) == pendientes(store@.pacientes),
{
    let ghost ps = store@.pacientes;
    let mut res: Vec<Paciente> = Vec::new();
    proof {
        reveal(Seq::filter);
        assert(ps.take(0) =~= Seq::<PacienteV>::empty());
        assert(vista_pacientes(res@) =~= pendientes(ps.take(0)));
    }
    let mut i: usize = 0;
    while i < store.pacientes.len()
        invariant
            i <= store.pacientes.len(),
            ps == store@.pacientes,
            ps.len() == store.pacientes.len(),
            vista_pacientes(res@) == pendientes(ps.take(i as int)),
        decreases store.pacientes.len() - i,
    {
        let p = &store.pacientes[i];
        proof {
            reveal(Seq::filter);
            assert(ps[i as int] == store.pacientes@[i as int]@);
            assert(ps.take(i as int + 1).drop_last() =~= ps.take(i as int));
            assert(ps.take(i as int + 1).last() == ps[i as int]);
        }
        if !p.sincronizado {
            let copia = p.clonar();
            res.push(copia);
            proof {
                assert(vista_pacientes(res@) =~= pendientes(ps.take(i as int)).push(ps[i as int]));
                assert(pendientes(ps.take(i as int + 1)) == pendientes(ps.take(i as int)).push(
                    ps[i as int],
                ));
            }
        } else {
            proof {
                assert(pendientes(ps.take(i as int + 1)) == pendientes(ps.take(i as int)));
            }
        }
        i = i + 1;
    }
    proof {
        assert(ps.take(ps.len() as int) =~= ps);
    }
    res
}

/// The body posted for one patient: the locally captured fields plus the
/// marker naming the upload as deferred.
pub struct PayloadPaciente {
    pub nombre: String,
    pub apellido: String,
    pub cedula: String,
    pub sucursal: String,
    pub source: String,
}

/// Abstract value of an upload body.
pub struct PayloadPacienteV {
    pub nombre: Seq<char>,
    pub apellido: Seq<char>,
    pub cedula: Seq<char>,
    pub sucursal: Seq<char>,
    pub source: Seq<char>,
}

impl View for PayloadPaciente {
    type V = PayloadPacienteV;

    open spec fn view(&self) -> PayloadPacienteV {
        PayloadPacienteV {
            nombre: self.nombre@,
            apellido: self.apellido@,
            cedula: self.cedula@,
            sucursal: self.sucursal@,
            source: self.source@,
        }
    }
}

/// The upload body a patient row determines. It depends on the row alone,
/// so a retried upload carries exactly the same payload.
pub open spec fn payload_de(p: PacienteV) -> PayloadPacienteV {
    PayloadPacienteV {
        nombre: p.nombre,
        apellido: p.apellido,
        cedula: p.cedula,
        sucursal: p.sucursal_id,
        source: "offline-sync"@,
    }
}

/// Builds the upload body for one patient.
pub fn armar_payload(p: &Paciente) -> (res: PayloadPaciente)
    ensures
        res@ == payload_de(p@),
{
    PayloadPaciente {
        nombre: p.nombre.clone(),
        apellido: p.apellido.clone(),
        cedula: p.cedula.clone(),
        sucursal: p.sucursal_id.clone(),
        source: "offline-sync".to_owned(),
    }
}

/// The patient row with a given local identifier.
pub open spec fn pred_id_local(id: int) -> spec_fn(PacienteV) -> bool {
    |p: PacienteV| p.id_local == id
}

/// The row after a confirmed upload: only the flag rises.
pub open spec fn paciente_marcado(p: PacienteV) -> PacienteV {
    PacienteV { sincronizado: true, ..p }
}

/// Marking a patient synchronized: the first row with the identifier gets
/// its flag raised; an unknown identifier changes nothing.
pub open spec fn spec_marcar(ps: Seq<PacienteV>, id: int) -> Seq<PacienteV> {
    match primer_indice(ps, pred_id_local(id)) {
        None => ps,
        Some(i) => ps.update(i, paciente_marcado(ps[i])),
    }
}

/// Records the remote authority's acknowledgment of one patient upload:
/// `sincronizado` flips to one, exactly once, and never back. Returns
/// whether the identifier named a row.
pub fn marcar_paciente_sincronizado(store: &mut Store, id_local: u64) -> (encontrado: bool)
    requires
        old(store)@.wf(),
    ensures
        final(store)@.wf(),
        final(store)@.pacientes == spec_marcar(old(store)@.pacientes, id_local as int),
        encontrado == exists|i: int|
            0 <= i < old(store)@.pacientes.len() && old(store)@.pacientes[i].id_local
                == id_local as int,
        final(store)@.usuarios == old(store)@.usuarios,
        final(store)@.sucursales == old(store)@.sucursales,
        final(store)@.estudios == old(store)@.estudios,
        final(store)@.pools == old(store)@.pools,
        final(store)@.siguiente_id_paciente == old(store)@.siguiente_id_paciente,
{
    let ghost ps = old(store)@.pacientes;
    let mut i: usize = 0;
    while i < store.pacientes.len()
        invariant
            old(store)@.wf(),
            store@ == old(store)@,
            ps == store@.pacientes,
            i <= store.pacientes.len(),
            store.pacientes.len() == ps.len(),
            forall|k: int| 0 <= k < i ==> !pred_id_local(id_local as int)(ps[k]),
        decreases store.pacientes.len() - i,
    {
        if store.pacientes[i].id_local == id_local {
            proof {
                assert(ps[i as int] == store.pacientes@[i as int]@);
                assert(pred_id_local(id_local as int)(ps[i as int]));
                lemma_primer_indice_es(ps, pred_id_local(id_local as int), i as int);
            }
            store.pacientes[i].sincronizado = true;
            proof {
                assert(store@.pacientes =~= ps.update(i as int, paciente_marcado(ps[i as int])));
                assert forall|a: int, b: int|
                    0 <= a < b < store@.pacientes.len() implies store@.pacientes[a].id_local
                    != store@.pacientes[b].id_local by {
                    assert(store@.pacientes[a].id_local == ps[a].id_local);
                    assert(store@.pacientes[b].id_local == ps[b].id_local);
                }
                assert forall|k: int| 0 <= k < store@.pacientes.len() implies (
                #[trigger] store@.pacientes[k]).id_local < store@.siguiente_id_paciente by {
                    assert(store@.pacientes[k].id_local == ps[k].id_local);
                }
            }
            return true;
        }
        proof {
            assert(ps[i as int] == store.pacientes@[i as int]@);
        }
        i = i + 1;
    }
    proof {
        lemma_primer_indice(ps, pred_id_local(id_local as int));
        assert(primer_indice(ps, pred_id_local(id_local as int)) is None);
        if exists|k: int| 0 <= k < ps.len() && ps[k].id_local == id_local as int {
            let k = choose|k: int| 0 <= k < ps.len() && ps[k].id_local == id_local as int;
            assert(pred_id_local(id_local as int)(ps[k]));
        }
    }
    false
}

// ---------------------------------------------------------------------------
// The eager full sync
// ---------------------------------------------------------------------------
/// Every pool pull answer of the batch failed outright.
pub open spec fn todas_fallidas(rs: Seq<ServerResponsePoolV>) -> bool {
    forall|k: int| 0 <= k < rs.len() ==> !(#[trigger] rs[k]).success
}

proof fn lemma_lote_fallido(pools: Seq<PoolV>, rs: Seq<ServerResponsePoolV>)
    requires
        todas_fallidas(rs),
    ensures
        registrar_lote(pools, rs) == pools,
    decreases rs.len(),
{
    if rs.len() > 0 {
        assert(!rs[0].success);
        assert(forall|k: int| 0 <= k < rs.skip(1).len() ==> rs.skip(1)[k] == rs[k + 1]);
        lemma_lote_fallido(pools, rs.skip(1));
    }
}

/// The eager one-shot synchronization a fresh terminal runs before its
/// periodic loop starts: all four pulls, in the cycle's order, each one
/// best-effort. Patients and the identifier counter are never touched, and
/// when every transfer failed the store is left exactly as it was.
pub fn forzar_sincronizacion_inicial(
    store: &mut Store,
    usuarios: &Option<ServerResponseUsuarios>,
    estudios: &Option<ServerResponseEstudios>,
    sucursales: &Option<ServerResponseSucursales>,
    pools: &Vec<ServerResponsePool>,
)
    requires
        old(store)@.wf(),
    ensures
        final(store)@.wf(),
        final(store)@.pacientes == old(store)@.pacientes,
        final(store)@.siguiente_id_paciente == old(store)@.siguiente_id_paciente,
        match *usuarios {
            Some(r) => {
                if r.success {
                    mapa_de(final(store)@.usuarios) == aplicar_lote(
                        mapa_de(old(store)@.usuarios),
                        filas_usuarios(r@.data),
                    )
                } else {
                    final(store)@.usuarios == old(store)@.usuarios
                }
            },
            None => final(store)@.usuarios == old(store)@.usuarios,
        },
        match *estudios {
            Some(r) => {
                if r.success {
                    mapa_de(final(store)@.estudios) == aplicar_lote(
                        mapa_de(old(store)@.estudios),
                        filas_estudios(r@.data),
                    )
                } else {
                    final(store)@.estudios == old(store)@.estudios
                }
            },
            None => final(store)@.estudios == old(store)@.estudios,
        },
        match *sucursales {
            Some(r) => {
                if r.success {
                    mapa_de(final(store)@.sucursales) == aplicar_lote(
                        mapa_de(old(store)@.sucursales),
                        filas_sucursales(r@.data),
                    )
                } else {
                    final(store)@.sucursales == old(store)@.sucursales
                }
            },
            None => final(store)@.sucursales == old(store)@.sucursales,
        },
        final(store)@.pools == registrar_lote(old(store)@.pools, vista_respuestas_pool(pools@)),
        (usuarios is None && estudios is None && sucursales is None && todas_fallidas(
            vista_respuestas_pool(pools@),
        )) ==> final(store)@ == old(store)@,
{
    sincronizar_usuarios(store, usuarios);
    sincronizar_estudios(store, estudios);
    sincronizar_sucursales(store, sucursales);
    sincronizar_pools(store, pools);
    proof {
        if usuarios is None && estudios is None && sucursales is None && todas_fallidas(
            vista_respuestas_pool(pools@),
        ) {
            lemma_lote_fallido(old(store)@.pools, vista_respuestas_pool(pools@));
        }
    }
}

// ---------------------------------------------------------------------------
// The cycle's state machine
// ---------------------------------------------------------------------------
/// Where a synchronization cycle stands. The driving loop performs the
/// transfer or the wait a step names, then advances with `siguiente_paso`.
#[derive(Clone, Copy, Debug, PartialEq, Eq, Structural)]
pub enum PasoCiclo {
    /// A cycle is about to start.
    Inactivo,
    /// Pulling the user catalog.
    DescargaUsuarios,
    /// Pulling the study catalog.
    DescargaEstudios,
    /// Pulling the branch catalog.
    DescargaSucursales,
    /// Pulling pool lots for the active branches.
    DescargaPools,
    /// Uploading patients not yet synchronized.
    SubidaPacientes,
    /// Sleeping for the fixed interval before the next cycle.
    Espera,
}

/// The fixed order of a cycle: pulls, then the push, then the wait, then a
/// new cycle; a step's failure never changes the order.
pub fn siguiente_paso(p: PasoCiclo) -> (s: PasoCiclo)
    ensures
        s == match p {
            PasoCiclo::Inactivo => PasoCiclo::DescargaUsuarios,
            PasoCiclo::DescargaUsuarios => PasoCiclo::DescargaEstudios,
            PasoCiclo::DescargaEstudios => PasoCiclo::DescargaSucursales,
            PasoCiclo::DescargaSucursales => PasoCiclo::DescargaPools,
            PasoCiclo::DescargaPools => PasoCiclo::SubidaPacientes,
            PasoCiclo::SubidaPacientes => PasoCiclo::Espera,
            PasoCiclo::Espera => PasoCiclo::Inactivo,
        },
{
    match p {
        PasoCiclo::Inactivo => PasoCiclo::DescargaUsuarios,
        PasoCiclo::DescargaUsuarios => PasoCiclo::DescargaEstudios,
        PasoCiclo::DescargaEstudios => PasoCiclo::DescargaSucursales,
        PasoCiclo::DescargaSucursales => PasoCiclo::DescargaPools,
        PasoCiclo::DescargaPools => PasoCiclo::SubidaPacientes,
        PasoCiclo::SubidaPacientes => PasoCiclo::Espera,
        PasoCiclo::Espera => PasoCiclo::Inactivo,
    }
}

} // verus!
