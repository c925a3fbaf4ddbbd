use runaserver::apache::{info_php_content, AccionDirectorio, Cms, OpcionCms};
use runaserver::pasos::{
    dpkg_query_args, paso_cms, primer_paso, primero_activar, primero_cms, primero_desactivar, primero_desinstalar,
    primero_drivers, primero_instalar_php, primero_modulos, primero_mysql, primero_reinicio, siguiente_activar,
    siguiente_apache, siguiente_arranque, siguiente_base, siguiente_desactivar, siguiente_desinstalar,
    siguiente_drivers, siguiente_instalar_php, siguiente_modulos, siguiente_mysql, siguiente_paso,
    siguiente_phpmyadmin, siguiente_reinicio, EventoCms, PasoActivarFpm, PasoApache, PasoApt, PasoArranque, PasoBase,
    PasoCms, PasoDesactivarFpm, PasoDesinstalar, PasoDrivers, PasoInstalarPhp, PasoModulos, PasoMysql,
    PasoPhpMyAdmin, PasoReinicio, CONSULTAS_SEGURIDAD, PasoSitio, PasoEditar, primero_sitio, siguiente_sitio,
    primero_editar, siguiente_editar,
};
use runaserver::servicios::Maquina;

/// The steps a linear task goes through when each step's outcome is given.
fn walk<P: Copy>(first: Option<P>, next: impl Fn(P, bool) -> Option<P>, outcome: impl Fn(P) -> bool) -> Vec<P> {
    let mut out = Vec::new();
    let mut paso = first;
    while let Some(p) = paso {
        out.push(p);
        assert!(out.len() < 100);
        paso = next(p, outcome(p));
    }
    out
}

#[test]
fn dpkg_query_arguments() {
    let progs = vec!["curl".to_string(), "git".to_string()];
    assert_eq!(dpkg_query_args(&progs), vec!["-W", "-f=${Package}\n", "curl", "git"]);
    assert_eq!(dpkg_query_args(&[]), vec!["-W", "-f=${Package}\n"]);
}

#[test]
fn apt_chain_follows_and_and() {
    assert_eq!(primer_paso(), PasoApt::Actualizar);
    assert_eq!(walk(Some(primer_paso()), siguiente_paso, |_| true), vec![PasoApt::Actualizar, PasoApt::Mejorar, PasoApt::Autoeliminar, PasoApt::Autolimpiar]);
    assert_eq!(walk(Some(primer_paso()), siguiente_paso, |p| p != PasoApt::Actualizar), vec![PasoApt::Actualizar, PasoApt::Autoeliminar, PasoApt::Autolimpiar]);
    assert_eq!(walk(Some(primer_paso()), siguiente_paso, |p| p != PasoApt::Autoeliminar), vec![PasoApt::Actualizar, PasoApt::Mejorar, PasoApt::Autoeliminar]);
    assert_eq!(siguiente_paso(PasoApt::Mejorar, false), Some(PasoApt::Autoeliminar));
}

#[test]
fn base_install_stops_on_repository_failure() {
    let todo = walk(Some(PasoBase::Actualizar), siguiente_base, |_| true);
    assert_eq!(todo, vec![PasoBase::Actualizar, PasoBase::InstalarBase, PasoBase::InstalarApache, PasoBase::RepoPhp, PasoBase::RepoApache, PasoBase::ActualizarRepos, PasoBase::Mejorar]);
    assert_eq!(walk(Some(PasoBase::Actualizar), siguiente_base, |p| p != PasoBase::RepoPhp), vec![PasoBase::Actualizar, PasoBase::InstalarBase, PasoBase::InstalarApache, PasoBase::RepoPhp]);
    assert_eq!(walk(Some(PasoBase::Actualizar), siguiente_base, |p| p == PasoBase::RepoPhp || p == PasoBase::RepoApache).len(), 7);
}

#[test]
fn apache_configuration_stops_at_first_failure() {
    assert_eq!(walk(Some(PasoApache::Firewall), siguiente_apache, |_| true), vec![PasoApache::Firewall, PasoApache::Reiniciar, PasoApache::SinPrefork, PasoApache::MpmEvent, PasoApache::Modulos, PasoApache::Exito]);
    assert_eq!(walk(Some(PasoApache::Firewall), siguiente_apache, |p| p != PasoApache::SinPrefork), vec![PasoApache::Firewall, PasoApache::Reiniciar, PasoApache::SinPrefork]);
}

#[test]
fn fpm_enable_and_disable() {
    assert_eq!(primero_activar(None), None);
    assert_eq!(
        walk(primero_activar(Some(0)), siguiente_activar, |p| p != PasoActivarFpm::Habilitar),
        vec![PasoActivarFpm::Arrancar, PasoActivarFpm::Habilitar, PasoActivarFpm::ActivarConf, PasoActivarFpm::Recordatorio]
    );
    assert_eq!(walk(primero_activar(Some(1)), siguiente_activar, |_| false), vec![PasoActivarFpm::Arrancar]);
    assert_eq!(primero_desactivar(None), None);
    assert_eq!(
        walk(primero_desactivar(Some(0)), siguiente_desactivar, |_| false),
        vec![PasoDesactivarFpm::DesactivarConf, PasoDesactivarFpm::Parar]
    );
    assert_eq!(walk(primero_desactivar(Some(0)), siguiente_desactivar, |_| true).len(), 3);
}

#[test]
fn php_install_modules_and_uninstall() {
    assert_eq!(primero_instalar_php(None), None);
    assert_eq!(walk(primero_instalar_php(Some(2)), siguiente_instalar_php, |p| p != PasoInstalarPhp::BuscarPaquetes), vec![PasoInstalarPhp::Actualizar, PasoInstalarPhp::BuscarPaquetes]);
    assert_eq!(walk(primero_instalar_php(Some(2)), siguiente_instalar_php, |p| p != PasoInstalarPhp::Instalar), vec![PasoInstalarPhp::Actualizar, PasoInstalarPhp::BuscarPaquetes, PasoInstalarPhp::Instalar, PasoInstalarPhp::DesactivarFpm]);

    assert_eq!(primero_modulos(None), None);
    assert_eq!(
        walk(primero_modulos(Some(0)), siguiente_modulos, |_| true),
        vec![PasoModulos::ListarModulos, PasoModulos::ElegirModulos, PasoModulos::Purgar, PasoModulos::Autoeliminar]
    );
    assert_eq!(
        walk(primero_modulos(Some(0)), siguiente_modulos, |p| p != PasoModulos::ElegirModulos),
        vec![PasoModulos::ListarModulos, PasoModulos::ElegirModulos]
    );
    assert_eq!(walk(primero_modulos(Some(0)), siguiente_modulos, |p| p != PasoModulos::Purgar).len(), 3);

    assert_eq!(primero_desinstalar(None), None);
    assert_eq!(
        walk(primero_desinstalar(Some(0)), siguiente_desinstalar, |_| false),
        vec![PasoDesinstalar::Purgar, PasoDesinstalar::Autoeliminar, PasoDesinstalar::Limpiar]
    );
}

#[test]
fn mysql_hardening_order() {
    assert_eq!(primero_mysql(false), None);
    let todo = walk(primero_mysql(true), siguiente_mysql, |_| true);
    let mut esperado = vec![PasoMysql::Arrancar, PasoMysql::BindAddress, PasoMysql::Politicas, PasoMysql::ClaveRoot, PasoMysql::Conectar];
    esperado.extend((0..CONSULTAS_SEGURIDAD).map(PasoMysql::Consulta));
    esperado.extend([PasoMysql::Reiniciar, PasoMysql::Firewall, PasoMysql::Exito]);
    assert_eq!(todo, esperado);
    assert_eq!(walk(primero_mysql(true), siguiente_mysql, |p| p != PasoMysql::Politicas).len(), todo.len());
    assert_eq!(walk(primero_mysql(true), siguiente_mysql, |p| p != PasoMysql::Consulta(3)).last(), Some(&PasoMysql::Consulta(3)));
    assert_eq!(walk(primero_mysql(true), siguiente_mysql, |p| p != PasoMysql::Firewall).last(), Some(&PasoMysql::Firewall));
}

#[test]
fn phpmyadmin_after_debconf() {
    assert_eq!(walk(Some(PasoPhpMyAdmin::Debconf), siguiente_phpmyadmin, |_| true), vec![PasoPhpMyAdmin::Debconf, PasoPhpMyAdmin::Instalar, PasoPhpMyAdmin::Exito]);
    assert_eq!(walk(Some(PasoPhpMyAdmin::Debconf), siguiente_phpmyadmin, |_| false), vec![PasoPhpMyAdmin::Debconf]);
    assert_eq!(walk(Some(PasoPhpMyAdmin::Debconf), siguiente_phpmyadmin, |p| p == PasoPhpMyAdmin::Debconf), vec![PasoPhpMyAdmin::Debconf, PasoPhpMyAdmin::Instalar]);
}

#[test]
fn launcher_stops_at_first_failure() {
    assert_eq!(
        walk(Some(PasoArranque::Ruta), siguiente_arranque, |p| p != PasoArranque::BorrarAnterior && p != PasoArranque::PermisosLanzador),
        vec![PasoArranque::Ruta, PasoArranque::BorrarAnterior, PasoArranque::Copiar, PasoArranque::Permisos, PasoArranque::Lanzador, PasoArranque::PermisosLanzador, PasoArranque::Exito]
    );
    assert_eq!(walk(Some(PasoArranque::Ruta), siguiente_arranque, |_| false), vec![PasoArranque::Ruta]);
    assert_eq!(walk(Some(PasoArranque::Ruta), siguiente_arranque, |p| p != PasoArranque::Copiar), vec![PasoArranque::Ruta, PasoArranque::BorrarAnterior, PasoArranque::Copiar]);
}

#[test]
fn drivers_order() {
    assert_eq!(primero_drivers(None), None);
    let run = |m: Maquina| walk(primero_drivers(Some(m)), |p, _| siguiente_drivers(m, p), |_| true);
    assert_eq!(run(Maquina::VirtualBox), vec![PasoDrivers::Actualizar, PasoDrivers::Instalar]);
    assert_eq!(run(Maquina::VMWare), vec![PasoDrivers::Actualizar, PasoDrivers::Instalar]);
    assert_eq!(run(Maquina::SinVm), vec![PasoDrivers::Actualizar, PasoDrivers::MejorarServidor, PasoDrivers::Instalar]);
}

#[test]
fn reboot_exits_only_after_success() {
    assert_eq!(primero_reinicio(false), PasoReinicio::Volver);
    assert_eq!(siguiente_reinicio(PasoReinicio::Volver, true), None);
    assert_eq!(primero_reinicio(true), PasoReinicio::Reiniciar);
    assert_eq!(siguiente_reinicio(PasoReinicio::Reiniciar, true), Some(PasoReinicio::Salir));
    assert_eq!(siguiente_reinicio(PasoReinicio::Reiniciar, false), None);
    assert_eq!(siguiente_reinicio(PasoReinicio::Salir, true), None);
}

#[test]
fn cms_installer_flow() {
    assert_eq!(primero_cms(false), None);
    assert_eq!(primero_cms(true), Some(PasoCms::ElegirSitio));
    assert_eq!(paso_cms(PasoCms::ElegirSitio, EventoCms::Hecho(false)), None);
    assert_eq!(paso_cms(PasoCms::ElegirSitio, EventoCms::Hecho(true)), Some(PasoCms::ElegirCms));
    assert_eq!(paso_cms(PasoCms::ElegirCms, EventoCms::Opcion(OpcionCms::Invalida)), None);
    // Emptying: once, only after a yes.
    assert_eq!(paso_cms(PasoCms::ElegirCms, EventoCms::Opcion(OpcionCms::Vaciar)), Some(PasoCms::Confirmar));
    assert_eq!(paso_cms(PasoCms::Confirmar, EventoCms::Hecho(false)), None);
    assert_eq!(paso_cms(PasoCms::Confirmar, EventoCms::Hecho(true)), Some(PasoCms::Vaciar));
    assert_eq!(paso_cms(PasoCms::Vaciar, EventoCms::Hecho(true)), None);
    // The PHP test page.
    assert_eq!(info_php_content(), "<?php phpinfo(); ?>\n");
    assert_eq!(paso_cms(PasoCms::ElegirCms, EventoCms::Opcion(OpcionCms::InfoPhp)), Some(PasoCms::EscribirInfo));
    assert_eq!(paso_cms(PasoCms::EscribirInfo, EventoCms::Hecho(false)), None);
    assert_eq!(paso_cms(PasoCms::EscribirInfo, EventoCms::Hecho(true)), Some(PasoCms::PropietarioInfo));
    assert_eq!(paso_cms(PasoCms::PropietarioInfo, EventoCms::Hecho(true)), None);
    // Download and extraction.
    let c = Cms::Joomla;
    assert_eq!(paso_cms(PasoCms::ElegirCms, EventoCms::Opcion(OpcionCms::Instalar(c))), Some(PasoCms::MirarCache(c)));
    assert_eq!(paso_cms(PasoCms::MirarCache(c), EventoCms::Hecho(true)), Some(PasoCms::MirarDestino(c)));
    assert_eq!(paso_cms(PasoCms::MirarCache(c), EventoCms::Hecho(false)), Some(PasoCms::Descargar(c)));
    assert_eq!(paso_cms(PasoCms::Descargar(c), EventoCms::Hecho(false)), None);
    assert_eq!(paso_cms(PasoCms::Descargar(c), EventoCms::Hecho(true)), Some(PasoCms::MirarDestino(c)));
    assert_eq!(paso_cms(PasoCms::MirarDestino(c), EventoCms::Hecho(true)), Some(PasoCms::Extraer(c)));
    assert_eq!(paso_cms(PasoCms::MirarDestino(c), EventoCms::Hecho(false)), Some(PasoCms::ElegirDestino(c)));
    assert_eq!(paso_cms(PasoCms::ElegirDestino(c), EventoCms::Destino(AccionDirectorio::Cancelar)), None);
    assert_eq!(paso_cms(PasoCms::ElegirDestino(c), EventoCms::Destino(AccionDirectorio::Conservar)), Some(PasoCms::Extraer(c)));
    assert_eq!(paso_cms(PasoCms::ElegirDestino(c), EventoCms::Destino(AccionDirectorio::Limpiar)), Some(PasoCms::LimpiarDestino(c)));
    assert_eq!(paso_cms(PasoCms::LimpiarDestino(c), EventoCms::Hecho(false)), Some(PasoCms::Extraer(c)));
    assert_eq!(paso_cms(PasoCms::Extraer(c), EventoCms::Hecho(false)), None);
    assert_eq!(paso_cms(PasoCms::Extraer(c), EventoCms::Hecho(true)), Some(PasoCms::PropietarioSitio));
    assert_eq!(paso_cms(PasoCms::PropietarioSitio, EventoCms::Hecho(true)), None);
    // An event that does not belong to the step ends the installer.
    assert_eq!(paso_cms(PasoCms::ElegirCms, EventoCms::Hecho(true)), None);
}

#[test]
fn site_creation_stops_at_first_failure() {
    let todo = walk(Some(primero_sitio()), siguiente_sitio, |_| true);
    assert_eq!(
        todo,
        vec![
            PasoSitio::Nombre,
            PasoSitio::Libre,
            PasoSitio::Versiones,
            PasoSitio::ElegirVersion,
            PasoSitio::EscribirVhost,
            PasoSitio::CrearDirectorio,
            PasoSitio::Permisos,
            PasoSitio::Habilitar,
            PasoSitio::Hosts,
            PasoSitio::Reiniciar,
            PasoSitio::Exito,
        ]
    );
    assert_eq!(walk(Some(primero_sitio()), siguiente_sitio, |_| false), vec![PasoSitio::Nombre]);
    assert_eq!(walk(Some(primero_sitio()), siguiente_sitio, |p| p != PasoSitio::Libre).last(), Some(&PasoSitio::Libre));
    assert_eq!(walk(Some(primero_sitio()), siguiente_sitio, |p| p != PasoSitio::Reiniciar).len(), 10);
}

#[test]
fn site_edit_backs_up_and_tests_before_restart() {
    let todo = walk(Some(primero_editar()), siguiente_editar, |_| true);
    assert_eq!(
        todo,
        vec![
            PasoEditar::Listar,
            PasoEditar::Elegir,
            PasoEditar::Respaldo,
            PasoEditar::Leer,
            PasoEditar::Preguntar,
            PasoEditar::Escribir,
            PasoEditar::Probar,
            PasoEditar::Reiniciar,
            PasoEditar::Confirmar,
        ]
    );
    assert_eq!(
        walk(Some(primero_editar()), siguiente_editar, |p| p != PasoEditar::Probar)[6..],
        [PasoEditar::Probar, PasoEditar::AvisoRespaldo]
    );
    assert_eq!(walk(Some(primero_editar()), siguiente_editar, |p| p != PasoEditar::Respaldo).last(), Some(&PasoEditar::Respaldo));
    assert_eq!(walk(Some(primero_editar()), siguiente_editar, |p| p != PasoEditar::Reiniciar).last(), Some(&PasoEditar::Reiniciar));
}
