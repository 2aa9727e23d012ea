use offline_core::asignador::{obtener_codigo_barras_offline, PoolError};
use offline_core::codigo::{formatear_codigo, formatear_decimal_9};
use offline_core::sesion::{guardar_paciente_offline, login_offline};
use offline_core::store::Store;
use offline_core::sync::{
    siguiente_paso, PasoCiclo, armar_payload, forzar_sincronizacion_inicial, marcar_paciente_sincronizado,
    pacientes_pendientes, registrar_pool, sincronizar_estudios, sincronizar_pools,
    sincronizar_sucursales, sincronizar_usuarios, sucursales_activas, EstudioServer, PoolInfo,
    ServerResponseEstudios, ServerResponsePool, ServerResponseSucursales, ServerResponseUsuarios,
    SucursalServer, UsuarioServer,
};

fn pool_info(lote: &str, prefijo: &str, inicio: i64, fin: i64, ultimo: i64) -> PoolInfo {
    PoolInfo {
        lote_id: lote.to_string(),
        prefijo: prefijo.to_string(),
        rango_inicio: inicio,
        rango_fin: fin,
        ultimo_sincronizado: ultimo,
    }
}

fn usuario(id: &str, nombre: &str, sucursal: Option<&str>) -> UsuarioServer {
    UsuarioServer {
        id: id.to_string(),
        nombre: nombre.to_string(),
        apellido: None,
        rol: None,
        sucursal: sucursal.map(|s| s.to_string()),
    }
}

#[test]
fn decimal_relleno_a_nueve_digitos() {
    assert_eq!(formatear_decimal_9(0), "000000000");
    assert_eq!(formatear_decimal_9(5), "000000005");
    assert_eq!(formatear_decimal_9(123456789), "123456789");
    assert_eq!(formatear_decimal_9(1234567890), "1234567890");
}

#[test]
fn codigo_concatena_prefijo_y_numero() {
    assert_eq!(formatear_codigo(&"FAC-PIA-".to_string(), 5), "FAC-PIA-000000005");
}

#[test]
fn escenario_concreto_de_agotamiento() {
    // Pool {range_start=1, range_end=3, last_used=0, prefix="FAC-"}: three
    // allocations, then exhaustion with the flag raised.
    let mut store = Store::nuevo();
    registrar_pool(&mut store, &pool_info("L1", "FAC-", 1, 3, 0));
    let tipo = "FACTURA".to_string();
    assert_eq!(
        obtener_codigo_barras_offline(&mut store, &tipo).unwrap().barcode,
        "FAC-000000001"
    );
    assert_eq!(
        obtener_codigo_barras_offline(&mut store, &tipo).unwrap().barcode,
        "FAC-000000002"
    );
    assert_eq!(
        obtener_codigo_barras_offline(&mut store, &tipo).unwrap().barcode,
        "FAC-000000003"
    );
    let cuarta = obtener_codigo_barras_offline(&mut store, &tipo);
    assert!(matches!(cuarta, Err(PoolError::PoolExhausted)));
    assert!(store.pools[0].agotado);
    assert_eq!(store.pools[0].ultimo_usado, 3);
}

#[test]
fn asignaciones_unicas_y_consecutivas() {
    let mut store = Store::nuevo();
    registrar_pool(&mut store, &pool_info("L1", "X", 1, 1000, 0));
    let tipo = "FACTURA".to_string();
    let mut vistos = Vec::new();
    for esperado in 1..=50u64 {
        let b = obtener_codigo_barras_offline(&mut store, &tipo).unwrap().barcode;
        assert_eq!(b, format!("X{:09}", esperado));
        assert!(!vistos.contains(&b));
        vistos.push(b);
    }
    assert_eq!(store.pools[0].ultimo_usado, 50);
}

#[test]
fn agotamiento_es_permanente() {
    let mut store = Store::nuevo();
    registrar_pool(&mut store, &pool_info("L1", "X", 1, 2, 0));
    let tipo = "FACTURA".to_string();
    obtener_codigo_barras_offline(&mut store, &tipo).unwrap();
    obtener_codigo_barras_offline(&mut store, &tipo).unwrap();
    assert!(store.pools[0].agotado);
    for _ in 0..3 {
        let r = obtener_codigo_barras_offline(&mut store, &tipo);
        assert!(matches!(r, Err(PoolError::PoolExhausted)));
        assert_eq!(store.pools[0].ultimo_usado, 2);
        assert!(store.pools[0].agotado);
    }
}

#[test]
fn sin_lotes_no_hay_codigos() {
    let mut store = Store::nuevo();
    let r = obtener_codigo_barras_offline(&mut store, &"FACTURA".to_string());
    assert!(matches!(r, Err(PoolError::PoolUnavailable)));
    // A pool of another kind does not serve this kind.
    registrar_pool(&mut store, &pool_info("L1", "X", 1, 10, 0));
    let r2 = obtener_codigo_barras_offline(&mut store, &"RESULTADO_LAB".to_string());
    assert!(matches!(r2, Err(PoolError::PoolUnavailable)));
}

#[test]
fn lotes_se_drenan_en_orden_de_llegada() {
    let mut store = Store::nuevo();
    registrar_pool(&mut store, &pool_info("L1", "A", 1, 1, 0));
    registrar_pool(&mut store, &pool_info("L2", "B", 1, 9, 0));
    let tipo = "FACTURA".to_string();
    assert_eq!(obtener_codigo_barras_offline(&mut store, &tipo).unwrap().barcode, "A000000001");
    assert_eq!(obtener_codigo_barras_offline(&mut store, &tipo).unwrap().barcode, "B000000001");
}

#[test]
fn pull_repetido_de_lote_no_duplica_ni_reinicia() {
    let mut store = Store::nuevo();
    let info = pool_info("L1", "FAC-", 1, 100, 0);
    registrar_pool(&mut store, &info);
    assert_eq!(store.pools.len(), 1);
    let tipo = "FACTURA".to_string();
    obtener_codigo_barras_offline(&mut store, &tipo).unwrap();
    assert_eq!(store.pools[0].ultimo_usado, 1);
    // The same lot pulled again: still one row, local consumption intact.
    registrar_pool(&mut store, &info);
    assert_eq!(store.pools.len(), 1);
    assert_eq!(store.pools[0].ultimo_usado, 1);
    assert_eq!(obtener_codigo_barras_offline(&mut store, &tipo).unwrap().barcode, "FAC-000000002");
}

#[test]
fn lote_con_rango_inaceptable_no_se_registra() {
    let mut store = Store::nuevo();
    registrar_pool(&mut store, &pool_info("L1", "X", 1, 5, 9));
    registrar_pool(&mut store, &pool_info("L2", "X", 0, 5, 0));
    assert_eq!(store.pools.len(), 0);
}

#[test]
fn login_por_id_y_por_nombre() {
    let mut store = Store::nuevo();
    let respuesta = Some(ServerResponseUsuarios {
        success: true,
        data: vec![
            UsuarioServer {
                id: "u1".to_string(),
                nombre: "ana".to_string(),
                apellido: Some("perez".to_string()),
                rol: Some("cajera".to_string()),
                sucursal: Some("s1".to_string()),
            },
        ],
    });
    sincronizar_usuarios(&mut store, &respuesta);
    let por_id = login_offline(&store, &"u1".to_string()).unwrap();
    assert_eq!(por_id.nombre, "ana");
    assert_eq!(por_id.apellido, "perez");
    let por_nombre = login_offline(&store, &"ana".to_string()).unwrap();
    assert_eq!(por_nombre.id, "u1");
    let fallo = login_offline(&store, &"nadie".to_string());
    assert_eq!(
        fallo.unwrap_err(),
        "Credenciales incorrectas o Usuario no descargado en esta PC"
    );
}

#[test]
fn upsert_converge_al_ultimo_valor() {
    let mut store = Store::nuevo();
    let primera = Some(ServerResponseUsuarios {
        success: true,
        data: vec![usuario("u1", "ana", Some("s1"))],
    });
    sincronizar_usuarios(&mut store, &primera);
    let segunda = Some(ServerResponseUsuarios {
        success: true,
        data: vec![usuario("u1", "ana maria", Some("s2"))],
    });
    sincronizar_usuarios(&mut store, &segunda);
    assert_eq!(store.usuarios.len(), 1);
    assert_eq!(store.usuarios[0].nombre, "ana maria");
    assert_eq!(store.usuarios[0].sucursal_id, "s2");
}

#[test]
fn orden_de_pull_no_importa_con_ids_distintos() {
    let a = usuario("u1", "ana", Some("s1"));
    let b = usuario("u2", "luis", Some("s2"));
    let mut primero_ab = Store::nuevo();
    sincronizar_usuarios(
        &mut primero_ab,
        &Some(ServerResponseUsuarios { success: true, data: vec![usuario("u1", "ana", Some("s1"))] }),
    );
    sincronizar_usuarios(
        &mut primero_ab,
        &Some(ServerResponseUsuarios { success: true, data: vec![usuario("u2", "luis", Some("s2"))] }),
    );
    let mut primero_ba = Store::nuevo();
    sincronizar_usuarios(
        &mut primero_ba,
        &Some(ServerResponseUsuarios { success: true, data: vec![b] }),
    );
    sincronizar_usuarios(
        &mut primero_ba,
        &Some(ServerResponseUsuarios { success: true, data: vec![a] }),
    );
    assert_eq!(primero_ab.usuarios.len(), 2);
    assert_eq!(primero_ba.usuarios.len(), 2);
    for id in ["u1", "u2"] {
        let x = login_offline(&primero_ab, &id.to_string()).unwrap();
        let y = login_offline(&primero_ba, &id.to_string()).unwrap();
        assert_eq!(x.nombre, y.nombre);
        assert_eq!(x.sucursal_id, y.sucursal_id);
    }
}

#[test]
fn respuesta_fallida_no_toca_el_catalogo() {
    let mut store = Store::nuevo();
    sincronizar_usuarios(
        &mut store,
        &Some(ServerResponseUsuarios { success: true, data: vec![usuario("u1", "ana", None)] }),
    );
    sincronizar_usuarios(&mut store, &None);
    sincronizar_usuarios(
        &mut store,
        &Some(ServerResponseUsuarios { success: false, data: vec![usuario("u9", "x", None)] }),
    );
    assert_eq!(store.usuarios.len(), 1);
    assert_eq!(store.usuarios[0].id, "u1");
}

#[test]
fn estudios_con_campos_ausentes_usan_defaults() {
    let mut store = Store::nuevo();
    let respuesta = Some(ServerResponseEstudios {
        success: true,
        data: vec![EstudioServer {
            id: "e1".to_string(),
            nombre: "hemograma".to_string(),
            codigo: None,
            precio: None,
            categoria: None,
        }],
    });
    sincronizar_estudios(&mut store, &respuesta);
    assert_eq!(store.estudios.len(), 1);
    assert_eq!(store.estudios[0].codigo, "");
    assert_eq!(store.estudios[0].precio, "0");
    assert_eq!(store.estudios[0].categoria, "");
}

#[test]
fn sucursales_se_upsertan_por_id() {
    let mut store = Store::nuevo();
    let r1 = Some(ServerResponseSucursales {
        success: true,
        data: vec![SucursalServer { id: "s1".to_string(), nombre: "centro".to_string() }],
    });
    sincronizar_sucursales(&mut store, &r1);
    let r2 = Some(ServerResponseSucursales {
        success: true,
        data: vec![SucursalServer { id: "s1".to_string(), nombre: "centro norte".to_string() }],
    });
    sincronizar_sucursales(&mut store, &r2);
    assert_eq!(store.sucursales.len(), 1);
    assert_eq!(store.sucursales[0].nombre, "centro norte");
}

#[test]
fn sucursales_activas_distintas_y_sin_vacias() {
    let mut store = Store::nuevo();
    let respuesta = Some(ServerResponseUsuarios {
        success: true,
        data: vec![
            usuario("u1", "ana", Some("s1")),
            usuario("u2", "luis", Some("s1")),
            usuario("u3", "eva", Some("s2")),
            usuario("u4", "juan", None),
        ],
    });
    sincronizar_usuarios(&mut store, &respuesta);
    let activas = sucursales_activas(&store);
    assert_eq!(activas, vec!["s1".to_string(), "s2".to_string()]);
}

#[test]
fn paciente_guardado_queda_pendiente_con_id_fresco() {
    let mut store = Store::nuevo();
    let id1 = guardar_paciente_offline(
        &mut store,
        "ana".to_string(),
        "perez".to_string(),
        "001".to_string(),
        "s1".to_string(),
        "2024-01-01".to_string(),
    );
    let id2 = guardar_paciente_offline(
        &mut store,
        "luis".to_string(),
        "soto".to_string(),
        "002".to_string(),
        "s1".to_string(),
        "2024-01-02".to_string(),
    );
    assert_eq!(id1, 1);
    assert_eq!(id2, 2);
    assert!(!store.pacientes[0].sincronizado);
    assert_eq!(pacientes_pendientes(&store).len(), 2);
}

#[test]
fn subida_reintentada_con_payload_identico_y_marcada_una_vez() {
    let mut store = Store::nuevo();
    let id = guardar_paciente_offline(
        &mut store,
        "ana".to_string(),
        "perez".to_string(),
        "001".to_string(),
        "s1".to_string(),
        "2024-01-01".to_string(),
    );
    let antes = pacientes_pendientes(&store);
    let payload_antes = armar_payload(&antes[0]);
    assert_eq!(payload_antes.source, "offline-sync");
    // A rejected or failed upload records nothing: the next cycle sees the
    // same pending row and builds the same payload.
    let despues = pacientes_pendientes(&store);
    assert_eq!(despues.len(), 1);
    let payload_despues = armar_payload(&despues[0]);
    assert_eq!(payload_antes.nombre, payload_despues.nombre);
    assert_eq!(payload_antes.apellido, payload_despues.apellido);
    assert_eq!(payload_antes.cedula, payload_despues.cedula);
    assert_eq!(payload_antes.sucursal, payload_despues.sucursal);
    assert_eq!(payload_antes.source, payload_despues.source);
    // A confirmed upload flips the flag once; the patient never pends again.
    assert!(marcar_paciente_sincronizado(&mut store, id));
    assert!(store.pacientes[0].sincronizado);
    assert_eq!(pacientes_pendientes(&store).len(), 0);
    assert!(marcar_paciente_sincronizado(&mut store, id));
    assert!(store.pacientes[0].sincronizado);
    assert!(!marcar_paciente_sincronizado(&mut store, 999));
}

#[test]
fn ciclo_degradado_no_cambia_nada() {
    let mut store = Store::nuevo();
    sincronizar_usuarios(
        &mut store,
        &Some(ServerResponseUsuarios { success: true, data: vec![usuario("u1", "ana", Some("s1"))] }),
    );
    registrar_pool(&mut store, &pool_info("L1", "X", 1, 10, 0));
    guardar_paciente_offline(
        &mut store,
        "ana".to_string(),
        "perez".to_string(),
        "001".to_string(),
        "s1".to_string(),
        "2024-01-01".to_string(),
    );
    let fallos = vec![
        ServerResponsePool { success: false, pool: None },
        ServerResponsePool { success: false, pool: Some(pool_info("L2", "Y", 1, 5, 0)) },
    ];
    for _ in 0..2 {
        forzar_sincronizacion_inicial(&mut store, &None, &None, &None, &fallos);
        assert_eq!(store.usuarios.len(), 1);
        assert_eq!(store.usuarios[0].nombre, "ana");
        assert_eq!(store.pools.len(), 1);
        assert_eq!(store.pools[0].ultimo_usado, 0);
        assert_eq!(store.pacientes.len(), 1);
        assert!(!store.pacientes[0].sincronizado);
        assert_eq!(store.siguiente_id_paciente, 2);
    }
}

#[test]
fn sincronizacion_inicial_puebla_todo() {
    let mut store = Store::nuevo();
    let usuarios = Some(ServerResponseUsuarios {
        success: true,
        data: vec![usuario("u1", "ana", Some("s1"))],
    });
    let estudios = Some(ServerResponseEstudios {
        success: true,
        data: vec![EstudioServer {
            id: "e1".to_string(),
            nombre: "hemograma".to_string(),
            codigo: Some("HEM".to_string()),
            precio: Some("12.5".to_string()),
            categoria: Some("sangre".to_string()),
        }],
    });
    let sucursales = Some(ServerResponseSucursales {
        success: true,
        data: vec![SucursalServer { id: "s1".to_string(), nombre: "centro".to_string() }],
    });
    let pools = vec![ServerResponsePool {
        success: true,
        pool: Some(pool_info("L1", "FAC-", 1, 100, 0)),
    }];
    forzar_sincronizacion_inicial(&mut store, &usuarios, &estudios, &sucursales, &pools);
    assert_eq!(store.usuarios.len(), 1);
    assert_eq!(store.estudios.len(), 1);
    assert_eq!(store.estudios[0].precio, "12.5");
    assert_eq!(store.sucursales.len(), 1);
    assert_eq!(store.pools.len(), 1);
    assert!(!store.pools[0].agotado);
    assert_eq!(store.pools[0].tipo, "FACTURA");
}

#[test]
fn pull_de_pools_respeta_respuestas_sin_lote() {
    let mut store = Store::nuevo();
    let respuestas = vec![
        ServerResponsePool { success: true, pool: None },
        ServerResponsePool { success: false, pool: Some(pool_info("L1", "X", 1, 5, 0)) },
        ServerResponsePool { success: true, pool: Some(pool_info("L2", "Y", 1, 5, 0)) },
    ];
    sincronizar_pools(&mut store, &respuestas);
    assert_eq!(store.pools.len(), 1);
    assert_eq!(store.pools[0].lote_id, "L2");
}

#[test]
fn el_ciclo_avanza_en_orden_fijo() {
    let orden = [
        PasoCiclo::Inactivo,
        PasoCiclo::DescargaUsuarios,
        PasoCiclo::DescargaEstudios,
        PasoCiclo::DescargaSucursales,
        PasoCiclo::DescargaPools,
        PasoCiclo::SubidaPacientes,
        PasoCiclo::Espera,
    ];
    let mut paso = PasoCiclo::Inactivo;
    for esperado in orden.iter().skip(1) {
        paso = siguiente_paso(paso);
        assert_eq!(paso, *esperado);
    }
    assert_eq!(siguiente_paso(paso), PasoCiclo::Inactivo);
}

#[test]
fn numeros_largos_se_imprimen_completos() {
    let mut store = Store::nuevo();
    registrar_pool(&mut store, &pool_info("L1", "P", 1000000000, 1000000001, 999999999));
    let tipo = "FACTURA".to_string();
    assert_eq!(obtener_codigo_barras_offline(&mut store, &tipo).unwrap().barcode, "P1000000000");
    assert_eq!(obtener_codigo_barras_offline(&mut store, &tipo).unwrap().barcode, "P1000000001");
    assert!(matches!(
        obtener_codigo_barras_offline(&mut store, &tipo),
        Err(PoolError::PoolExhausted)
    ));
}
