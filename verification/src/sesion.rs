//! The session boundary: the synchronous operations a user-facing shell
//! invokes against the local store. None of them touches the network.

use vstd::prelude::*;
use crate::modelo::{
    Usuario, UsuarioV, Paciente, PacienteV, primer_indice, lemma_primer_indice,
    lemma_primer_indice_es,
};
use crate::store::Store;

verus! {

/// The message reported when no mirrored user matches: the cause may be a
/// bad credential or catalog data not yet downloaded.
pub open spec fn mensaje_login_fallido() -> Seq<char> {
    "Credenciales incorrectas o Usuario no descargado en esta PC"@
}

/// A user row matches a login query by its remote identifier or its name.
pub open spec fn coincide_login(u: UsuarioV, q: Seq<char>) -> bool {
    u.id == q || u.nombre == q
}

/// The login predicate for one query, as a first-class function.
pub open spec fn pred_login(q: Seq<char>) -> spec_fn(UsuarioV) -> bool {
    |u: UsuarioV| coincide_login(u, q)
}

/// Looks a user up in the local mirror by remote identifier or name and
/// returns the first matching row, or the standard failure message when no
/// row matches.
pub fn login_offline(store: &Store, username: &String) -> (res: Result<Usuario, String>)
    ensures
        match primer_indice(store@.usuarios, pred_login(username@)) {
            Some(j) => res matches Ok(u) && u@ == store@.usuarios[j],
            None => res matches Err(m) && m@ == mensaje_login_fallido(),
        },
{
    let mut i: usize = 0;
    while i < store.usuarios.len()
        invariant
            i <= store.usuarios.len(),
            store@.usuarios.len() == store.usuarios.len(),
            forall|k: int| 0 <= k < i ==> !pred_login(username@)(store@.usuarios[k]),
        decreases store.usuarios.len() - i,
    {
        let u = &store.usuarios[i];
        if u.id == *username || u.nombre == *username {
            proof {
                assert(store@.usuarios[i as int] == store.usuarios@[i as int]@);
                assert(store@.usuarios[i as int].id == username@ || store@.usuarios[
                    i as int
                ].nombre == username@);
                assert(coincide_login(store@.usuarios[i as int], username@));
                assert(pred_login(username@)(store@.usuarios[i as int]));
                lemma_primer_indice_es(store@.usuarios, pred_login(username@), i as int);
            }
            return Ok(u.clonar());
        }
        proof {
            assert(!coincide_login(store@.usuarios[i as int], username@));
        }
        i = i + 1;
    }
    proof {
        lemma_primer_indice(store@.usuarios, pred_login(username@));
        assert(primer_indice(store@.usuarios, pred_login(username@)) is None);
    }
    Err("Credenciales incorrectas o Usuario no descargado en esta PC".to_owned())
}

/// The patient row `guardar_paciente_offline` appends for given fields.
pub open spec fn paciente_nuevo(
    id_local: int,
    nombre: Seq<char>,
    apellido: Seq<char>,
    cedula: Seq<char>,
    sucursal_id: Seq<char>,
    creado_en: Seq<char>,
) -> PacienteV {
    PacienteV {
        id_local,
        nombre,
        apellido,
        cedula,
        sucursal_id,
        sincronizado: false,
        creado_en,
    }
}

/// Inserts one locally created patient, not yet synchronized, and returns
/// its fresh local identifier.
pub fn guardar_paciente_offline(
    store: &mut Store,
    nombre: String,
    apellido: String,
    cedula: String,
    sucursal_id: String,
    creado_en: String,
) -> (id: u64)
    requires
        old(store)@.wf(),
        old(store)@.siguiente_id_paciente < u64::MAX,
    ensures
        final(store)@.wf(),
        id == old(store)@.siguiente_id_paciente,
        final(store)@.pacientes == old(store)@.pacientes.push(
            paciente_nuevo(
                id as int,
                nombre@,
                apellido@,
                cedula@,
                sucursal_id@,
                creado_en@,
            ),
        ),
        final(store)@.siguiente_id_paciente == old(store)@.siguiente_id_paciente + 1,
        final(store)@.usuarios == old(store)@.usuarios,
        final(store)@.sucursales == old(store)@.sucursales,
        final(store)@.estudios == old(store)@.estudios,
        final(store)@.pools == old(store)@.pools,
{
    let id: u64 = store.siguiente_id_paciente;
    let p = Paciente {
        id_local: id,
        nombre,
        apellido,
        cedula,
        sucursal_id,
        sincronizado: false,
        creado_en,
    };
    let ghost viejos = store@.pacientes;
    store.pacientes.push(p);
    store.siguiente_id_paciente = id + 1;
    proof {
        assert(store@.pacientes =~= viejos.push(
            paciente_nuevo(id as int, p.nombre@, p.apellido@, p.cedula@, p.sucursal_id@, p.creado_en@),
        ));
    }
    id
}

} // verus!
