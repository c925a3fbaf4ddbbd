//! The order of the steps of each task that runs commands or touches files.
//!
//! Every task is a small state machine: the caller performs a step (runs a
//! command, writes a file, asks a question) and hands its outcome to the
//! task's step function, which names the next step, or `None` when the task
//! is over. A step function never does I/O itself.
use vstd::prelude::*;
use crate::apache::{Cms, OpcionCms, AccionDirectorio};
use crate::servicios::Maquina;
use crate::data::views;
use crate::text::{chars_of, string_from_chars};

verus! {

// ---------------------------------------------------------------------------
// dpkg-query
// ---------------------------------------------------------------------------

/// The arguments of the `dpkg-query` call that lists which of `programas`
/// are installed: `-W`, the format `-f=${Package}\n`, then the programs in
/// order.
pub fn dpkg_query_args(programas: &[String]) -> (r: Vec<String>)
    ensures
        views(r@) == seq!["-W"@, "-f=${Package}\n"@] + views(programas@),
{
    let mut r: Vec<String> = Vec::new();
    r.push(string_from_chars(chars_of("-W").as_slice()));
    r.push(string_from_chars(chars_of("-f=${Package}\n").as_slice()));
    let mut i: usize = 0;
    while i < programas.len()
        invariant
            i <= programas.len(),
            views(r@) == seq!["-W"@, "-f=${Package}\n"@] + views(programas@).take(i as int),
        decreases programas.len() - i,
    {
        let ghost before = views(r@);
        r.push(programas[i].clone());
        proof {
            assert(views(r@) =~= before.push(programas@[i as int]@));
            assert(views(programas@).take(i + 1) =~= views(programas@).take(i as int).push(programas@[i as int]@));
        }
        i = i + 1;
    }
    proof {
        assert(views(programas@).take(programas.len() as int) =~= views(programas@));
    }
    r
}

// ---------------------------------------------------------------------------
// System update: `apt update && apt upgrade -y`, `apt autoremove -y && apt autoclean -y`
// ---------------------------------------------------------------------------

/// A step of the system update.
#[derive(PartialEq, Eq, Structural, Debug, Clone, Copy)]
pub enum PasoApt {
    Actualizar,
    Mejorar,
    Autoeliminar,
    Autolimpiar,
}

/// Each command of a pair runs only if the one before it succeeded; the
/// second pair runs either way.
pub open spec fn siguiente_de(paso: PasoApt, exito: bool) -> Option<PasoApt> {
    match paso {
        PasoApt::Actualizar => if exito { Some(PasoApt::Mejorar) } else { Some(PasoApt::Autoeliminar) },
        PasoApt::Mejorar => Some(PasoApt::Autoeliminar),
        PasoApt::Autoeliminar => if exito { Some(PasoApt::Autolimpiar) } else { None },
        PasoApt::Autolimpiar => None,
    }
}

/// The update starts with `apt-get update`.
pub fn primer_paso() -> (r: PasoApt)
    ensures
        r == PasoApt::Actualizar,
{
    PasoApt::Actualizar
}

/// The step after `paso`, given whether it succeeded.
pub fn siguiente_paso(paso: PasoApt, exito: bool) -> (r: Option<PasoApt>)
    ensures
        r == siguiente_de(paso, exito),
{
    match paso {
        PasoApt::Actualizar => if exito { Some(PasoApt::Mejorar) } else { Some(PasoApt::Autoeliminar) },
        PasoApt::Mejorar => Some(PasoApt::Autoeliminar),
        PasoApt::Autoeliminar => if exito { Some(PasoApt::Autolimpiar) } else { None },
        PasoApt::Autolimpiar => None,
    }
}

// ---------------------------------------------------------------------------
// Base software
// ---------------------------------------------------------------------------

/// A step of the base installation.
#[derive(PartialEq, Eq, Structural, Debug, Clone, Copy)]
pub enum PasoBase {
    /// `apt-get update`.
    Actualizar,
    /// The missing packages of `paquetes_base`.
    InstalarBase,
    /// The missing packages of `apache`.
    InstalarApache,
    /// `add-apt-repository ppa:ondrej/php -y`.
    RepoPhp,
    /// `add-apt-repository ppa:ondrej/apache2 -y`.
    RepoApache,
    /// `apt-get update` with the new repositories.
    ActualizarRepos,
    /// `apt-get upgrade -y`.
    Mejorar,
}

/// The installation goes on after each step, except that a repository that
/// cannot be added ends it.
pub open spec fn siguiente_base_de(paso: PasoBase, exito: bool) -> Option<PasoBase> {
    match paso {
        PasoBase::Actualizar => Some(PasoBase::InstalarBase),
        PasoBase::InstalarBase => Some(PasoBase::InstalarApache),
        PasoBase::InstalarApache => Some(PasoBase::RepoPhp),
        PasoBase::RepoPhp => if exito { Some(PasoBase::RepoApache) } else { None },
        PasoBase::RepoApache => if exito { Some(PasoBase::ActualizarRepos) } else { None },
        PasoBase::ActualizarRepos => Some(PasoBase::Mejorar),
        PasoBase::Mejorar => None,
    }
}

/// The step of the base installation after `paso`.
pub fn siguiente_base(paso: PasoBase, exito: bool) -> (r: Option<PasoBase>)
    ensures
        r == siguiente_base_de(paso, exito),
{
    match paso {
        PasoBase::Actualizar => Some(PasoBase::InstalarBase),
        PasoBase::InstalarBase => Some(PasoBase::InstalarApache),
        PasoBase::InstalarApache => Some(PasoBase::RepoPhp),
        PasoBase::RepoPhp => if exito { Some(PasoBase::RepoApache) } else { None },
        PasoBase::RepoApache => if exito { Some(PasoBase::ActualizarRepos) } else { None },
        PasoBase::ActualizarRepos => Some(PasoBase::Mejorar),
        PasoBase::Mejorar => None,
    }
}

// ---------------------------------------------------------------------------
// Apache configuration
// ---------------------------------------------------------------------------

/// A step of the Apache configuration.
#[derive(PartialEq, Eq, Structural, Debug, Clone, Copy)]
pub enum PasoApache {
    /// `ufw allow "Apache Full"`.
    Firewall,
    /// `systemctl restart apache2`.
    Reiniciar,
    /// `a2dismod mpm_prefork`.
    SinPrefork,
    /// `a2enmod mpm_event proxy_fcgi setenvif`.
    MpmEvent,
    /// `a2enmod actions fcgid alias proxy_fcgi`.
    Modulos,
    /// Report that everything was configured.
    Exito,
}

/// Each command runs only if the one before it succeeded; success is
/// reported only after the last one.
pub open spec fn siguiente_apache_de(paso: PasoApache, exito: bool) -> Option<PasoApache> {
    match paso {
        PasoApache::Firewall => if exito { Some(PasoApache::Reiniciar) } else { None },
        PasoApache::Reiniciar => if exito { Some(PasoApache::SinPrefork) } else { None },
        PasoApache::SinPrefork => if exito { Some(PasoApache::MpmEvent) } else { None },
        PasoApache::MpmEvent => if exito { Some(PasoApache::Modulos) } else { None },
        PasoApache::Modulos => if exito { Some(PasoApache::Exito) } else { None },
        PasoApache::Exito => None,
    }
}

/// The step of the Apache configuration after `paso`.
pub fn siguiente_apache(paso: PasoApache, exito: bool) -> (r: Option<PasoApache>)
    ensures
        r == siguiente_apache_de(paso, exito),
{
    match paso {
        PasoApache::Firewall => if exito { Some(PasoApache::Reiniciar) } else { None },
        PasoApache::Reiniciar => if exito { Some(PasoApache::SinPrefork) } else { None },
        PasoApache::SinPrefork => if exito { Some(PasoApache::MpmEvent) } else { None },
        PasoApache::MpmEvent => if exito { Some(PasoApache::Modulos) } else { None },
        PasoApache::Modulos => if exito { Some(PasoApache::Exito) } else { None },
        PasoApache::Exito => None,
    }
}

// ---------------------------------------------------------------------------
// PHP-FPM in Apache
// ---------------------------------------------------------------------------

/// A step of enabling a PHP-FPM version.
#[derive(PartialEq, Eq, Structural, Debug, Clone, Copy)]
pub enum PasoActivarFpm {
    /// `systemctl start php<v>-fpm`.
    Arrancar,
    /// `systemctl enable php<v>-fpm` (its outcome is not checked).
    Habilitar,
    /// `a2enconf php<v>-fpm`.
    ActivarConf,
    /// Remind the user to restart Apache.
    Recordatorio,
}

/// Enabling starts only when a listed version was chosen.
pub open spec fn primero_activar_de(eleccion: Option<usize>) -> Option<PasoActivarFpm> {
    match eleccion {
        Some(_) => Some(PasoActivarFpm::Arrancar),
        None => None,
    }
}

/// The service must start before anything else is done; the reminder
/// follows a successful `a2enconf` only.
pub open spec fn siguiente_activar_de(paso: PasoActivarFpm, exito: bool) -> Option<PasoActivarFpm> {
    match paso {
        PasoActivarFpm::Arrancar => if exito { Some(PasoActivarFpm::Habilitar) } else { None },
        PasoActivarFpm::Habilitar => Some(PasoActivarFpm::ActivarConf),
        PasoActivarFpm::ActivarConf => if exito { Some(PasoActivarFpm::Recordatorio) } else { None },
        PasoActivarFpm::Recordatorio => None,
    }
}

/// The first step of enabling, given the position chosen (`select_index`).
pub fn primero_activar(eleccion: Option<usize>) -> (r: Option<PasoActivarFpm>)
    ensures
        r == primero_activar_de(eleccion),
{
    match eleccion {
        Some(_) => Some(PasoActivarFpm::Arrancar),
        None => None,
    }
}

/// The step of enabling after `paso`.
pub fn siguiente_activar(paso: PasoActivarFpm, exito: bool) -> (r: Option<PasoActivarFpm>)
    ensures
        r == siguiente_activar_de(paso, exito),
{
    match paso {
        PasoActivarFpm::Arrancar => if exito { Some(PasoActivarFpm::Habilitar) } else { None },
        PasoActivarFpm::Habilitar => Some(PasoActivarFpm::ActivarConf),
        PasoActivarFpm::ActivarConf => if exito { Some(PasoActivarFpm::Recordatorio) } else { None },
        PasoActivarFpm::Recordatorio => None,
    }
}

/// A step of disabling a PHP-FPM version.
#[derive(PartialEq, Eq, Structural, Debug, Clone, Copy)]
pub enum PasoDesactivarFpm {
    /// `a2disconf php<v>-fpm`.
    DesactivarConf,
    /// Remind the user to restart Apache.
    Recordatorio,
    /// `systemctl stop php<v>-fpm`.
    Parar,
}

/// Disabling starts only when a listed version was chosen.
pub open spec fn primero_desactivar_de(eleccion: Option<usize>) -> Option<PasoDesactivarFpm> {
    match eleccion {
        Some(_) => Some(PasoDesactivarFpm::DesactivarConf),
        None => None,
    }
}

/// The service is stopped whether or not `a2disconf` succeeded; the
/// reminder follows a successful `a2disconf` only.
pub open spec fn siguiente_desactivar_de(paso: PasoDesactivarFpm, exito: bool) -> Option<PasoDesactivarFpm> {
    match paso {
        PasoDesactivarFpm::DesactivarConf => if exito {
            Some(PasoDesactivarFpm::Recordatorio)
        } else {
            Some(PasoDesactivarFpm::Parar)
        },
        PasoDesactivarFpm::Recordatorio => Some(PasoDesactivarFpm::Parar),
        PasoDesactivarFpm::Parar => None,
    }
}

/// The first step of disabling, given the position chosen (`select_index`).
pub fn primero_desactivar(eleccion: Option<usize>) -> (r: Option<PasoDesactivarFpm>)
    ensures
        r == primero_desactivar_de(eleccion),
{
    match eleccion {
        Some(_) => Some(PasoDesactivarFpm::DesactivarConf),
        None => None,
    }
}

/// The step of disabling after `paso`.
pub fn siguiente_desactivar(paso: PasoDesactivarFpm, exito: bool) -> (r: Option<PasoDesactivarFpm>)
    ensures
        r == siguiente_desactivar_de(paso, exito),
{
    match paso {
        PasoDesactivarFpm::DesactivarConf => if exito {
            Some(PasoDesactivarFpm::Recordatorio)
        } else {
            Some(PasoDesactivarFpm::Parar)
        },
        PasoDesactivarFpm::Recordatorio => Some(PasoDesactivarFpm::Parar),
        PasoDesactivarFpm::Parar => None,
    }
}

// ---------------------------------------------------------------------------
// PHP: install a version, purge modules, uninstall a version
// ---------------------------------------------------------------------------

/// A step of installing a PHP version.
#[derive(PartialEq, Eq, Structural, Debug, Clone, Copy)]
pub enum PasoInstalarPhp {
    /// `apt-get update`.
    Actualizar,
    /// Work out the missing module packages of the version; succeeds when
    /// there is at least one.
    BuscarPaquetes,
    /// `apt-get install` of those packages.
    Instalar,
    /// Disable the PHP-FPM configurations enabled in Apache and restart it.
    DesactivarFpm,
}

/// Installing starts only when a listed version was chosen.
pub open spec fn primero_instalar_php_de(eleccion: Option<usize>) -> Option<PasoInstalarPhp> {
    match eleccion {
        Some(_) => Some(PasoInstalarPhp::Actualizar),
        None => None,
    }
}

/// Nothing is installed when no package is missing; the FPM
/// configurations are disabled after the install, whatever its outcome.
pub open spec fn siguiente_instalar_php_de(paso: PasoInstalarPhp, exito: bool) -> Option<PasoInstalarPhp> {
    match paso {
        PasoInstalarPhp::Actualizar => Some(PasoInstalarPhp::BuscarPaquetes),
        PasoInstalarPhp::BuscarPaquetes => if exito { Some(PasoInstalarPhp::Instalar) } else { None },
        PasoInstalarPhp::Instalar => Some(PasoInstalarPhp::DesactivarFpm),
        PasoInstalarPhp::DesactivarFpm => None,
    }
}

/// The first step of installing, given the position chosen (`select_index`).
pub fn primero_instalar_php(eleccion: Option<usize>) -> (r: Option<PasoInstalarPhp>)
    ensures
        r == primero_instalar_php_de(eleccion),
{
    match eleccion {
        Some(_) => Some(PasoInstalarPhp::Actualizar),
        None => None,
    }
}

/// The step of installing after `paso`.
pub fn siguiente_instalar_php(paso: PasoInstalarPhp, exito: bool) -> (r: Option<PasoInstalarPhp>)
    ensures
        r == siguiente_instalar_php_de(paso, exito),
{
    match paso {
        PasoInstalarPhp::Actualizar => Some(PasoInstalarPhp::BuscarPaquetes),
        PasoInstalarPhp::BuscarPaquetes => if exito { Some(PasoInstalarPhp::Instalar) } else { None },
        PasoInstalarPhp::Instalar => Some(PasoInstalarPhp::DesactivarFpm),
        PasoInstalarPhp::DesactivarFpm => None,
    }
}

/// A step of purging PHP modules.
#[derive(PartialEq, Eq, Structural, Debug, Clone, Copy)]
pub enum PasoModulos {
    /// `dpkg -l`, keeping the version's modules; succeeds when there is at
    /// least one.
    ListarModulos,
    /// Ask which modules to purge; succeeds when the answer picks at least
    /// one (`modulos_php`).
    ElegirModulos,
    /// `apt-get purge -y` of the picked modules; succeeds when the command
    /// could be started.
    Purgar,
    /// `apt-get autoremove -y`.
    Autoeliminar,
}

/// Nothing runs, not even `dpkg -l`, unless a listed version was chosen.
pub open spec fn primero_modulos_de(eleccion: Option<usize>) -> Option<PasoModulos> {
    match eleccion {
        Some(_) => Some(PasoModulos::ListarModulos),
        None => None,
    }
}

/// The purge runs only if some module was picked, and `autoremove` only if
/// the purge could be started.
pub open spec fn siguiente_modulos_de(paso: PasoModulos, exito: bool) -> Option<PasoModulos> {
    match paso {
        PasoModulos::ListarModulos => if exito { Some(PasoModulos::ElegirModulos) } else { None },
        PasoModulos::ElegirModulos => if exito { Some(PasoModulos::Purgar) } else { None },
        PasoModulos::Purgar => if exito { Some(PasoModulos::Autoeliminar) } else { None },
        PasoModulos::Autoeliminar => None,
    }
}

/// The first step of the module purge, given the version chosen.
pub fn primero_modulos(eleccion: Option<usize>) -> (r: Option<PasoModulos>)
    ensures
        r == primero_modulos_de(eleccion),
{
    match eleccion {
        Some(_) => Some(PasoModulos::ListarModulos),
        None => None,
    }
}

/// The step of the module purge after `paso`.
pub fn siguiente_modulos(paso: PasoModulos, exito: bool) -> (r: Option<PasoModulos>)
    ensures
        r == siguiente_modulos_de(paso, exito),
{
    match paso {
        PasoModulos::ListarModulos => if exito { Some(PasoModulos::ElegirModulos) } else { None },
        PasoModulos::ElegirModulos => if exito { Some(PasoModulos::Purgar) } else { None },
        PasoModulos::Purgar => if exito { Some(PasoModulos::Autoeliminar) } else { None },
        PasoModulos::Autoeliminar => None,
    }
}

/// A step of uninstalling a PHP version.
#[derive(PartialEq, Eq, Structural, Debug, Clone, Copy)]
pub enum PasoDesinstalar {
    /// `apt-get purge -y php<v>* libapache2-mod-php<v>`.
    Purgar,
    /// `apt-get autoremove --purge -y -qq`.
    Autoeliminar,
    /// `apt-get clear`.
    Limpiar,
}

/// Nothing runs unless a listed version was chosen.
pub open spec fn primero_desinstalar_de(eleccion: Option<usize>) -> Option<PasoDesinstalar> {
    match eleccion {
        Some(_) => Some(PasoDesinstalar::Purgar),
        None => None,
    }
}

/// Purge, then `autoremove`, then `clear`, whether each succeeded or not.
pub open spec fn siguiente_desinstalar_de(paso: PasoDesinstalar, exito: bool) -> Option<PasoDesinstalar> {
    match paso {
        PasoDesinstalar::Purgar => Some(PasoDesinstalar::Autoeliminar),
        PasoDesinstalar::Autoeliminar => Some(PasoDesinstalar::Limpiar),
        PasoDesinstalar::Limpiar => None,
    }
}

/// The first step of the uninstall, given the version chosen.
pub fn primero_desinstalar(eleccion: Option<usize>) -> (r: Option<PasoDesinstalar>)
    ensures
        r == primero_desinstalar_de(eleccion),
{
    match eleccion {
        Some(_) => Some(PasoDesinstalar::Purgar),
        None => None,
    }
}

/// The step of the uninstall after `paso`.
pub fn siguiente_desinstalar(paso: PasoDesinstalar, exito: bool) -> (r: Option<PasoDesinstalar>)
    ensures
        r == siguiente_desinstalar_de(paso, exito),
{
    match paso {
        PasoDesinstalar::Purgar => Some(PasoDesinstalar::Autoeliminar),
        PasoDesinstalar::Autoeliminar => Some(PasoDesinstalar::Limpiar),
        PasoDesinstalar::Limpiar => None,
    }
}

// ---------------------------------------------------------------------------
// MySQL hardening and phpMyAdmin
// ---------------------------------------------------------------------------

/// How many hardening statements are sent (`mysql::configurar_mysql_seguro`).
pub const CONSULTAS_SEGURIDAD: usize = 7;

/// A step of the MySQL hardening.
#[derive(PartialEq, Eq, Structural, Debug, Clone, Copy)]
pub enum PasoMysql {
    /// `systemctl start mysql`.
    Arrancar,
    /// `sed` setting `bind-address = 0.0.0.0` in `mysqld.cnf`.
    BindAddress,
    /// Relax the password policy (its outcome is not checked).
    Politicas,
    /// `mysql -e` with the statement that sets the local root password.
    ClaveRoot,
    /// Connect as root through the local socket.
    Conectar,
    /// Send the hardening statement at this position.
    Consulta(usize),
    /// `systemctl restart mysql`.
    Reiniciar,
    /// `ufw allow 3306/tcp`.
    Firewall,
    /// Report that the hardening is complete.
    Exito,
}

/// Nothing runs unless the password was typed the same twice
/// (`passwords_ok`).
pub open spec fn primero_mysql_de(claves_ok: bool) -> Option<PasoMysql> {
    if claves_ok { Some(PasoMysql::Arrancar) } else { None }
}

/// In order, each step runs only if the one before it succeeded (the policy
/// step aside); the statements go one by one; success is reported only
/// after the firewall rule.
pub open spec fn siguiente_mysql_de(paso: PasoMysql, exito: bool) -> Option<PasoMysql> {
    match paso {
        PasoMysql::Politicas => Some(PasoMysql::ClaveRoot),
        PasoMysql::Exito => None,
        _ => if !exito {
            None
        } else {
            match paso {
                PasoMysql::Arrancar => Some(PasoMysql::BindAddress),
                PasoMysql::BindAddress => Some(PasoMysql::Politicas),
                PasoMysql::ClaveRoot => Some(PasoMysql::Conectar),
                PasoMysql::Conectar => Some(PasoMysql::Consulta(0)),
                PasoMysql::Consulta(i) => if i + 1 < CONSULTAS_SEGURIDAD {
                    Some(PasoMysql::Consulta((i + 1) as usize))
                } else {
                    Some(PasoMysql::Reiniciar)
                },
                PasoMysql::Reiniciar => Some(PasoMysql::Firewall),
                _ => Some(PasoMysql::Exito),
            }
        },
    }
}

/// The first step of the hardening, given whether the passwords match.
pub fn primero_mysql(claves_ok: bool) -> (r: Option<PasoMysql>)
    ensures
        r == primero_mysql_de(claves_ok),
{
    if claves_ok { Some(PasoMysql::Arrancar) } else { None }
}

/// The step of the hardening after `paso`.
pub fn siguiente_mysql(paso: PasoMysql, exito: bool) -> (r: Option<PasoMysql>)
    ensures
        r == siguiente_mysql_de(paso, exito),
{
    match paso {
        PasoMysql::Politicas => Some(PasoMysql::ClaveRoot),
        PasoMysql::Exito => None,
        _ => if !exito {
            None
        } else {
            match paso {
                PasoMysql::Arrancar => Some(PasoMysql::BindAddress),
                PasoMysql::BindAddress => Some(PasoMysql::Politicas),
                PasoMysql::ClaveRoot => Some(PasoMysql::Conectar),
                PasoMysql::Conectar => Some(PasoMysql::Consulta(0)),
                PasoMysql::Consulta(i) => if i < CONSULTAS_SEGURIDAD - 1 {
                    Some(PasoMysql::Consulta(i + 1))
                } else {
                    Some(PasoMysql::Reiniciar)
                },
                PasoMysql::Reiniciar => Some(PasoMysql::Firewall),
                _ => Some(PasoMysql::Exito),
            }
        },
    }
}

/// A step of the phpMyAdmin installation.
#[derive(PartialEq, Eq, Structural, Debug, Clone, Copy)]
pub enum PasoPhpMyAdmin {
    /// Preload the debconf answers (`mysql::instalar_phpmyadmin`).
    Debconf,
    /// `DEBIAN_FRONTEND=noninteractive apt-get install -y phpmyadmin`.
    Instalar,
    /// Report that phpMyAdmin is installed.
    Exito,
}

/// The package is installed only after the answers were preloaded, and
/// success is reported only after both.
pub open spec fn siguiente_phpmyadmin_de(paso: PasoPhpMyAdmin, exito: bool) -> Option<PasoPhpMyAdmin> {
    match paso {
        PasoPhpMyAdmin::Debconf => if exito { Some(PasoPhpMyAdmin::Instalar) } else { None },
        PasoPhpMyAdmin::Instalar => if exito { Some(PasoPhpMyAdmin::Exito) } else { None },
        PasoPhpMyAdmin::Exito => None,
    }
}

/// The step of the phpMyAdmin installation after `paso`.
pub fn siguiente_phpmyadmin(paso: PasoPhpMyAdmin, exito: bool) -> (r: Option<PasoPhpMyAdmin>)
    ensures
        r == siguiente_phpmyadmin_de(paso, exito),
{
    match paso {
        PasoPhpMyAdmin::Debconf => if exito { Some(PasoPhpMyAdmin::Instalar) } else { None },
        PasoPhpMyAdmin::Instalar => if exito { Some(PasoPhpMyAdmin::Exito) } else { None },
        PasoPhpMyAdmin::Exito => None,
    }
}

// ---------------------------------------------------------------------------
// Services: launcher, drivers, reboot
// ---------------------------------------------------------------------------

/// A step of installing the launcher in `/usr/local/bin`.
#[derive(PartialEq, Eq, Structural, Debug, Clone, Copy)]
pub enum PasoArranque {
    /// Resolve the path of the running binary.
    Ruta,
    /// Remove an earlier copy of the binary (its outcome is only reported).
    BorrarAnterior,
    /// Copy the binary.
    Copiar,
    /// Make the copy executable (`0o755`).
    Permisos,
    /// Write the launcher script (`servicios::auto_start`).
    Lanzador,
    /// Make the launcher executable (its outcome is not checked).
    PermisosLanzador,
    /// Report that the launcher is installed.
    Exito,
}

/// The installation stops at the first failing step; removing the old copy
/// and setting the launcher's mode never stop it.
pub open spec fn siguiente_arranque_de(paso: PasoArranque, exito: bool) -> Option<PasoArranque> {
    match paso {
        PasoArranque::Ruta => if exito { Some(PasoArranque::BorrarAnterior) } else { None },
        PasoArranque::BorrarAnterior => Some(PasoArranque::Copiar),
        PasoArranque::Copiar => if exito { Some(PasoArranque::Permisos) } else { None },
        PasoArranque::Permisos => if exito { Some(PasoArranque::Lanzador) } else { None },
        PasoArranque::Lanzador => if exito { Some(PasoArranque::PermisosLanzador) } else { None },
        PasoArranque::PermisosLanzador => Some(PasoArranque::Exito),
        PasoArranque::Exito => None,
    }
}

/// The step of the launcher installation after `paso`.
pub fn siguiente_arranque(paso: PasoArranque, exito: bool) -> (r: Option<PasoArranque>)
    ensures
        r == siguiente_arranque_de(paso, exito),
{
    match paso {
        PasoArranque::Ruta => if exito { Some(PasoArranque::BorrarAnterior) } else { None },
        PasoArranque::BorrarAnterior => Some(PasoArranque::Copiar),
        PasoArranque::Copiar => if exito { Some(PasoArranque::Permisos) } else { None },
        PasoArranque::Permisos => if exito { Some(PasoArranque::Lanzador) } else { None },
        PasoArranque::Lanzador => if exito { Some(PasoArranque::PermisosLanzador) } else { None },
        PasoArranque::PermisosLanzador => Some(PasoArranque::Exito),
        PasoArranque::Exito => None,
    }
}

/// A step of the driver installation.
#[derive(PartialEq, Eq, Structural, Debug, Clone, Copy)]
pub enum PasoDrivers {
    /// `apt-get update`.
    Actualizar,
    /// The whole system update (`PasoApt`).
    MejorarServidor,
    /// Install the missing packages listed for the machine.
    Instalar,
}

/// Nothing runs unless a machine was picked (`drivers_needed`).
pub open spec fn primero_drivers_de(maquina: Option<Maquina>) -> Option<PasoDrivers> {
    match maquina {
        Some(_) => Some(PasoDrivers::Actualizar),
        None => None,
    }
}

/// After the package lists are updated, a machine that is not virtual gets
/// the whole system update first; then the machine's packages are installed.
pub open spec fn siguiente_drivers_de(maquina: Maquina, paso: PasoDrivers) -> Option<PasoDrivers> {
    match paso {
        PasoDrivers::Actualizar => if maquina == Maquina::SinVm {
            Some(PasoDrivers::MejorarServidor)
        } else {
            Some(PasoDrivers::Instalar)
        },
        PasoDrivers::MejorarServidor => Some(PasoDrivers::Instalar),
        PasoDrivers::Instalar => None,
    }
}

/// The first step of the driver installation, given the machine picked.
pub fn primero_drivers(maquina: Option<Maquina>) -> (r: Option<PasoDrivers>)
    ensures
        r == primero_drivers_de(maquina),
{
    match maquina {
        Some(_) => Some(PasoDrivers::Actualizar),
        None => None,
    }
}

/// The step of the driver installation after `paso`.
pub fn siguiente_drivers(maquina: Maquina, paso: PasoDrivers) -> (r: Option<PasoDrivers>)
    ensures
        r == siguiente_drivers_de(maquina, paso),
{
    match paso {
        PasoDrivers::Actualizar => if maquina == Maquina::SinVm {
            Some(PasoDrivers::MejorarServidor)
        } else {
            Some(PasoDrivers::Instalar)
        },
        PasoDrivers::MejorarServidor => Some(PasoDrivers::Instalar),
        PasoDrivers::Instalar => None,
    }
}

/// A step of the reboot.
#[derive(PartialEq, Eq, Structural, Debug, Clone, Copy)]
pub enum PasoReinicio {
    /// Run `reboot`.
    Reiniciar,
    /// Leave the program with status 0.
    Salir,
    /// Clear the screen and go back to the menu.
    Volver,
}

/// A yes (`servicios::reboot`) runs `reboot` once; anything else goes back.
pub open spec fn primero_reinicio_de(confirmado: bool) -> PasoReinicio {
    if confirmado { PasoReinicio::Reiniciar } else { PasoReinicio::Volver }
}

/// The program exits with status 0 only after `reboot` succeeded.
pub open spec fn siguiente_reinicio_de(paso: PasoReinicio, exito: bool) -> Option<PasoReinicio> {
    match paso {
        PasoReinicio::Reiniciar => if exito { Some(PasoReinicio::Salir) } else { None },
        _ => None,
    }
}

/// The first step after the reboot question.
pub fn primero_reinicio(confirmado: bool) -> (r: PasoReinicio)
    ensures
        r == primero_reinicio_de(confirmado),
{
    if confirmado { PasoReinicio::Reiniciar } else { PasoReinicio::Volver }
}

/// The step of the reboot after `paso`.
pub fn siguiente_reinicio(paso: PasoReinicio, exito: bool) -> (r: Option<PasoReinicio>)
    ensures
        r == siguiente_reinicio_de(paso, exito),
{
    match paso {
        PasoReinicio::Reiniciar => if exito { Some(PasoReinicio::Salir) } else { None },
        _ => None,
    }
}

// ---------------------------------------------------------------------------
// Apache sites: create, edit
// ---------------------------------------------------------------------------

/// A step of creating a site.
#[derive(PartialEq, Eq, Structural, Debug, Clone, Copy)]
pub enum PasoSitio {
    /// Ask for the name; succeeds when it is valid (`valid_site_name`).
    Nombre,
    /// Look for the site's configuration file; succeeds when there is none.
    Libre,
    /// List the PHP-FPM versions configured; succeeds when there is one.
    Versiones,
    /// Ask for a version; succeeds when the answer picks a listed one.
    ElegirVersion,
    /// Write the virtual host (`vhost_content`).
    EscribirVhost,
    /// Create the web directory.
    CrearDirectorio,
    /// `chown -R www-data:www-data` of the web directory.
    Permisos,
    /// `a2ensite <site>.conf`.
    Habilitar,
    /// Append the site's line to `/etc/hosts` (`hosts_line`).
    Hosts,
    /// `systemctl restart apache2`.
    Reiniciar,
    /// Report that the site was created.
    Exito,
}

/// Site creation starts by asking for the name.
pub open spec fn primero_sitio_de() -> PasoSitio {
    PasoSitio::Nombre
}

/// Each step runs only if the one before it succeeded, in this order:
/// nothing is written before the name, the free name and the version are
/// settled, and success is reported only after Apache restarted.
pub open spec fn siguiente_sitio_de(paso: PasoSitio, exito: bool) -> Option<PasoSitio> {
    if !exito {
        None
    } else {
        match paso {
            PasoSitio::Nombre => Some(PasoSitio::Libre),
            PasoSitio::Libre => Some(PasoSitio::Versiones),
            PasoSitio::Versiones => Some(PasoSitio::ElegirVersion),
            PasoSitio::ElegirVersion => Some(PasoSitio::EscribirVhost),
            PasoSitio::EscribirVhost => Some(PasoSitio::CrearDirectorio),
            PasoSitio::CrearDirectorio => Some(PasoSitio::Permisos),
            PasoSitio::Permisos => Some(PasoSitio::Habilitar),
            PasoSitio::Habilitar => Some(PasoSitio::Hosts),
            PasoSitio::Hosts => Some(PasoSitio::Reiniciar),
            PasoSitio::Reiniciar => Some(PasoSitio::Exito),
            PasoSitio::Exito => None,
        }
    }
}

/// The first step of creating a site.
pub fn primero_sitio() -> (r: PasoSitio)
    ensures
        r == primero_sitio_de(),
{
    PasoSitio::Nombre
}

/// The step of creating a site after `paso`.
pub fn siguiente_sitio(paso: PasoSitio, exito: bool) -> (r: Option<PasoSitio>)
    ensures
        r == siguiente_sitio_de(paso, exito),
{
    if !exito {
        None
    } else {
        match paso {
            PasoSitio::Nombre => Some(PasoSitio::Libre),
            PasoSitio::Libre => Some(PasoSitio::Versiones),
            PasoSitio::Versiones => Some(PasoSitio::ElegirVersion),
            PasoSitio::ElegirVersion => Some(PasoSitio::EscribirVhost),
            PasoSitio::EscribirVhost => Some(PasoSitio::CrearDirectorio),
            PasoSitio::CrearDirectorio => Some(PasoSitio::Permisos),
            PasoSitio::Permisos => Some(PasoSitio::Habilitar),
            PasoSitio::Habilitar => Some(PasoSitio::Hosts),
            PasoSitio::Hosts => Some(PasoSitio::Reiniciar),
            PasoSitio::Reiniciar => Some(PasoSitio::Exito),
            PasoSitio::Exito => None,
        }
    }
}

/// A step of editing a site's configuration file.
#[derive(PartialEq, Eq, Structural, Debug, Clone, Copy)]
pub enum PasoEditar {
    /// List the `.conf` files of `sites-available`; succeeds when there is
    /// one.
    Listar,
    /// Ask for a file; succeeds when the answer picks a listed one.
    Elegir,
    /// Copy the file to its backup (`backup_path`).
    Respaldo,
    /// Read the file.
    Leer,
    /// Ask for the new values (the answers cannot fail).
    Preguntar,
    /// Write the edited text (`edit_site`).
    Escribir,
    /// `apache2ctl configtest`.
    Probar,
    /// `systemctl restart apache2`.
    Reiniciar,
    /// Report that the configuration is valid and Apache restarted.
    Confirmar,
    /// Point the user to the backup.
    AvisoRespaldo,
}

/// Editing starts by listing the files.
pub open spec fn primero_editar_de() -> PasoEditar {
    PasoEditar::Listar
}

/// Each step runs only if the one before it succeeded; the backup is made
/// before the file is read or written; Apache is restarted only after
/// `configtest` succeeded, and a failed test points to the backup instead.
pub open spec fn siguiente_editar_de(paso: PasoEditar, exito: bool) -> Option<PasoEditar> {
    match paso {
        PasoEditar::Probar => if exito { Some(PasoEditar::Reiniciar) } else { Some(PasoEditar::AvisoRespaldo) },
        PasoEditar::Confirmar => None,
        PasoEditar::AvisoRespaldo => None,
        _ => if !exito {
            None
        } else {
            match paso {
                PasoEditar::Listar => Some(PasoEditar::Elegir),
                PasoEditar::Elegir => Some(PasoEditar::Respaldo),
                PasoEditar::Respaldo => Some(PasoEditar::Leer),
                PasoEditar::Leer => Some(PasoEditar::Preguntar),
                PasoEditar::Preguntar => Some(PasoEditar::Escribir),
                PasoEditar::Escribir => Some(PasoEditar::Probar),
                _ => Some(PasoEditar::Confirmar),
            }
        },
    }
}

/// The first step of editing a site.
pub fn primero_editar() -> (r: PasoEditar)
    ensures
        r == primero_editar_de(),
{
    PasoEditar::Listar
}

/// The step of editing a site after `paso`.
pub fn siguiente_editar(paso: PasoEditar, exito: bool) -> (r: Option<PasoEditar>)
    ensures
        r == siguiente_editar_de(paso, exito),
{
    match paso {
        PasoEditar::Probar => if exito { Some(PasoEditar::Reiniciar) } else { Some(PasoEditar::AvisoRespaldo) },
        PasoEditar::Confirmar => None,
        PasoEditar::AvisoRespaldo => None,
        _ => if !exito {
            None
        } else {
            match paso {
                PasoEditar::Listar => Some(PasoEditar::Elegir),
                PasoEditar::Elegir => Some(PasoEditar::Respaldo),
                PasoEditar::Respaldo => Some(PasoEditar::Leer),
                PasoEditar::Leer => Some(PasoEditar::Preguntar),
                PasoEditar::Preguntar => Some(PasoEditar::Escribir),
                PasoEditar::Escribir => Some(PasoEditar::Probar),
                _ => Some(PasoEditar::Confirmar),
            }
        },
    }
}

// ---------------------------------------------------------------------------
// CMS installer
// ---------------------------------------------------------------------------

/// A step of the CMS installer, on the site chosen.
#[derive(PartialEq, Eq, Structural, Debug, Clone, Copy)]
pub enum PasoCms {
    /// List the enabled sites and ask for one; succeeds when the answer
    /// picks a listed site (`select_index`).
    ElegirSitio,
    /// Ask what to do with the site (`apache::instalar_cms`).
    ElegirCms,
    /// Ask whether to empty the site; succeeds on a yes
    /// (`confirma_vaciar`).
    Confirmar,
    /// Delete everything inside the site directory (`clean_command`).
    Vaciar,
    /// Write the PHP test page (`info_php_path`, `info_php_content`).
    EscribirInfo,
    /// `chown www-data:www-data` of the test page.
    PropietarioInfo,
    /// Whether the package is already in the cache; succeeds when it is.
    MirarCache(Cms),
    /// `wget -qO <cache> <url>`.
    Descargar(Cms),
    /// Whether the site directory is empty; succeeds when it is.
    MirarDestino(Cms),
    /// Ask what to do with the files already there (`accion_directorio`).
    ElegirDestino(Cms),
    /// Delete everything inside the site directory before extracting.
    LimpiarDestino(Cms),
    /// Extract the package into the site (`unzip` or `tar`).
    Extraer(Cms),
    /// `chown -R www-data:www-data` of the site, and report success.
    PropietarioSitio,
}

/// What a step of the CMS installer ended with.
#[derive(PartialEq, Eq, Structural, Debug, Clone, Copy)]
pub enum EventoCms {
    /// The step succeeded or not (see each step).
    Hecho(bool),
    /// The option picked at the CMS question.
    Opcion(OpcionCms),
    /// The answer about the files already in the site.
    Destino(AccionDirectorio),
}

/// Nothing is asked or done when no enabled site has a document root.
pub open spec fn primero_cms_de(hay_sitios: bool) -> Option<PasoCms> {
    if hay_sitios { Some(PasoCms::ElegirSitio) } else { None }
}

/// The installer's order. A bad site choice ends it before anything is
/// written or run. The site is emptied once, only after a yes. The test
/// page is handed to `www-data` only once written. The package is
/// downloaded only when it is not cached, and nothing is extracted after a
/// failed download. When the site holds files, extraction needs the answer
/// to clean them or keep them. The site is handed to `www-data` only after
/// a successful extraction. An event that does not belong to the step ends
/// the installer.
pub open spec fn siguiente_cms_de(paso: PasoCms, evento: EventoCms) -> Option<PasoCms> {
    match (paso, evento) {
        (PasoCms::ElegirSitio, EventoCms::Hecho(ok)) => if ok { Some(PasoCms::ElegirCms) } else { None },
        (PasoCms::ElegirCms, EventoCms::Opcion(o)) => match o {
            OpcionCms::Instalar(c) => Some(PasoCms::MirarCache(c)),
            OpcionCms::InfoPhp => Some(PasoCms::EscribirInfo),
            OpcionCms::Vaciar => Some(PasoCms::Confirmar),
            OpcionCms::Invalida => None,
        },
        (PasoCms::Confirmar, EventoCms::Hecho(si)) => if si { Some(PasoCms::Vaciar) } else { None },
        (PasoCms::EscribirInfo, EventoCms::Hecho(ok)) => if ok { Some(PasoCms::PropietarioInfo) } else { None },
        (PasoCms::MirarCache(c), EventoCms::Hecho(esta)) => if esta {
            Some(PasoCms::MirarDestino(c))
        } else {
            Some(PasoCms::Descargar(c))
        },
        (PasoCms::Descargar(c), EventoCms::Hecho(ok)) => if ok { Some(PasoCms::MirarDestino(c)) } else { None },
        (PasoCms::MirarDestino(c), EventoCms::Hecho(vacio)) => if vacio {
            Some(PasoCms::Extraer(c))
        } else {
            Some(PasoCms::ElegirDestino(c))
        },
        (PasoCms::ElegirDestino(c), EventoCms::Destino(a)) => match a {
            AccionDirectorio::Limpiar => Some(PasoCms::LimpiarDestino(c)),
            AccionDirectorio::Conservar => Some(PasoCms::Extraer(c)),
            AccionDirectorio::Cancelar => None,
        },
        (PasoCms::LimpiarDestino(c), _) => Some(PasoCms::Extraer(c)),
        (PasoCms::Extraer(_), EventoCms::Hecho(ok)) => if ok { Some(PasoCms::PropietarioSitio) } else { None },
        _ => None,
    }
}

/// The first step of the CMS installer.
pub fn primero_cms(hay_sitios: bool) -> (r: Option<PasoCms>)
    ensures
        r == primero_cms_de(hay_sitios),
{
    if hay_sitios { Some(PasoCms::ElegirSitio) } else { None }
}

/// The step of the CMS installer after `paso` ended with `evento`.
pub fn paso_cms(paso: PasoCms, evento: EventoCms) -> (r: Option<PasoCms>)
    ensures
        r == siguiente_cms_de(paso, evento),
{
    match (paso, evento) {
        (PasoCms::ElegirSitio, EventoCms::Hecho(ok)) => if ok { Some(PasoCms::ElegirCms) } else { None },
        (PasoCms::ElegirCms, EventoCms::Opcion(o)) => match o {
            OpcionCms::Instalar(c) => Some(PasoCms::MirarCache(c)),
            OpcionCms::InfoPhp => Some(PasoCms::EscribirInfo),
            OpcionCms::Vaciar => Some(PasoCms::Confirmar),
            OpcionCms::Invalida => None,
        },
        (PasoCms::Confirmar, EventoCms::Hecho(si)) => if si { Some(PasoCms::Vaciar) } else { None },
        (PasoCms::EscribirInfo, EventoCms::Hecho(ok)) => if ok { Some(PasoCms::PropietarioInfo) } else { None },
        (PasoCms::MirarCache(c), EventoCms::Hecho(esta)) => if esta {
            Some(PasoCms::MirarDestino(c))
        } else {
            Some(PasoCms::Descargar(c))
        },
        (PasoCms::Descargar(c), EventoCms::Hecho(ok)) => if ok { Some(PasoCms::MirarDestino(c)) } else { None },
        (PasoCms::MirarDestino(c), EventoCms::Hecho(vacio)) => if vacio {
            Some(PasoCms::Extraer(c))
        } else {
            Some(PasoCms::ElegirDestino(c))
        },
        (PasoCms::ElegirDestino(c), EventoCms::Destino(a)) => match a {
            AccionDirectorio::Limpiar => Some(PasoCms::LimpiarDestino(c)),
            AccionDirectorio::Conservar => Some(PasoCms::Extraer(c)),
            AccionDirectorio::Cancelar => None,
        },
        (PasoCms::LimpiarDestino(c), _) => Some(PasoCms::Extraer(c)),
        (PasoCms::Extraer(_), EventoCms::Hecho(ok)) => if ok { Some(PasoCms::PropietarioSitio) } else { None },
        _ => None,
    }
}


// ---------------------------------------------------------------------------
// Laws of the step orders
// ---------------------------------------------------------------------------

/// The system update, as the README writes it: `apt update && apt upgrade
/// -y`, then `apt autoremove -y && apt autoclean -y`. The upgrade runs only
/// after a successful update, the autoclean only after a successful
/// autoremove, the autoremove runs whatever happened to the first pair, and
/// a failed autoremove ends the update.
pub proof fn lemma_orden_apt(p: PasoApt, exito: bool)
    ensures
        siguiente_de(p, exito) == Some(PasoApt::Mejorar) <==> (p == PasoApt::Actualizar && exito),
        siguiente_de(p, exito) == Some(PasoApt::Autolimpiar) <==> (p == PasoApt::Autoeliminar && exito),
        siguiente_de(p, exito) == Some(PasoApt::Autoeliminar) <==> (p == PasoApt::Actualizar && !exito
            || p == PasoApt::Mejorar),
        siguiente_de(p, exito) != Some(PasoApt::Actualizar),
        p == PasoApt::Autoeliminar && !exito ==> siguiente_de(p, exito) is None,
        p == PasoApt::Autolimpiar ==> siguiente_de(p, exito) is None,
{
}

/// The order of the base installation when every step succeeds.
pub open spec fn orden_base() -> Seq<PasoBase> {
    seq![
        PasoBase::Actualizar,
        PasoBase::InstalarBase,
        PasoBase::InstalarApache,
        PasoBase::RepoPhp,
        PasoBase::RepoApache,
        PasoBase::ActualizarRepos,
        PasoBase::Mejorar,
    ]
}

/// The base installation goes through its steps in order; only a
/// repository that cannot be added ends it early, so the package lists are
/// refreshed and the system upgraded only after both repositories were
/// added; the other steps go on whatever their outcome.
pub proof fn lemma_orden_base(p: PasoBase, exito: bool)
    ensures
        forall|i: int| 0 <= i < 6 ==> siguiente_base_de(#[trigger] orden_base()[i], true) == Some(orden_base()[i + 1]),
        siguiente_base_de(PasoBase::Mejorar, exito) is None,
        siguiente_base_de(PasoBase::RepoPhp, false) is None,
        siguiente_base_de(PasoBase::RepoApache, false) is None,
        p != PasoBase::RepoPhp && p != PasoBase::RepoApache ==> siguiente_base_de(p, exito) == siguiente_base_de(p, true),
        siguiente_base_de(p, exito) == Some(PasoBase::RepoApache) <==> (p == PasoBase::RepoPhp && exito),
        siguiente_base_de(p, exito) == Some(PasoBase::ActualizarRepos) <==> (p == PasoBase::RepoApache && exito),
{
    assert forall|i: int| 0 <= i < 6 implies siguiente_base_de(#[trigger] orden_base()[i], true) == Some(orden_base()[i + 1]) by {
        if i == 0 {} else if i == 1 {} else if i == 2 {} else if i == 3 {} else if i == 4 {} else {}
    }
}

/// The order of the Apache configuration when every step succeeds.
pub open spec fn orden_apache() -> Seq<PasoApache> {
    seq![
        PasoApache::Firewall,
        PasoApache::Reiniciar,
        PasoApache::SinPrefork,
        PasoApache::MpmEvent,
        PasoApache::Modulos,
        PasoApache::Exito,
    ]
}

/// The Apache configuration goes through its steps in order, a failed step
/// ends it, and success is reported only after the last module step
/// succeeded.
pub proof fn lemma_orden_apache(p: PasoApache, exito: bool)
    ensures
        forall|i: int| 0 <= i < 5 ==> siguiente_apache_de(#[trigger] orden_apache()[i], true) == Some(orden_apache()[i + 1]),
        siguiente_apache_de(p, false) is None,
        siguiente_apache_de(PasoApache::Exito, exito) is None,
        siguiente_apache_de(p, exito) == Some(PasoApache::Exito) <==> (p == PasoApache::Modulos && exito),
{
    assert forall|i: int| 0 <= i < 5 implies siguiente_apache_de(#[trigger] orden_apache()[i], true) == Some(orden_apache()[i + 1]) by {
        if i == 0 {} else if i == 1 {} else if i == 2 {} else if i == 3 {} else {}
    }
}

/// Enabling a PHP-FPM version needs a chosen version; nothing follows a
/// service that did not start; the configuration is enabled whether or not
/// `systemctl enable` worked; the reminder follows only a successful
/// `a2enconf`.
pub proof fn lemma_orden_activar(e: Option<usize>, p: PasoActivarFpm, exito: bool)
    ensures
        primero_activar_de(e) is Some <==> e is Some,
        siguiente_activar_de(PasoActivarFpm::Arrancar, false) is None,
        siguiente_activar_de(PasoActivarFpm::Habilitar, exito) == Some(PasoActivarFpm::ActivarConf),
        siguiente_activar_de(p, exito) == Some(PasoActivarFpm::Habilitar) <==> (p == PasoActivarFpm::Arrancar && exito),
        siguiente_activar_de(p, exito) == Some(PasoActivarFpm::Recordatorio) <==> (p == PasoActivarFpm::ActivarConf && exito),
        siguiente_activar_de(PasoActivarFpm::Recordatorio, exito) is None,
{
}

/// Disabling a PHP-FPM version needs a chosen version; the service is
/// stopped whatever `a2disconf` gave, and the reminder follows only a
/// successful `a2disconf`; stopping is the last step.
pub proof fn lemma_orden_desactivar(e: Option<usize>, p: PasoDesactivarFpm, exito: bool)
    ensures
        primero_desactivar_de(e) is Some <==> e is Some,
        siguiente_desactivar_de(p, exito) == Some(PasoDesactivarFpm::Recordatorio)
            <==> (p == PasoDesactivarFpm::DesactivarConf && exito),
        p != PasoDesactivarFpm::Parar ==> siguiente_desactivar_de(p, exito) is Some,
        siguiente_desactivar_de(PasoDesactivarFpm::Parar, exito) is None,
{
}

/// Installing a PHP version needs a chosen version; nothing is installed
/// unless some package is missing; the FPM configurations are disabled
/// after the install whatever its outcome, and that is the last step.
pub proof fn lemma_orden_instalar_php(e: Option<usize>, p: PasoInstalarPhp, exito: bool)
    ensures
        primero_instalar_php_de(e) is Some <==> e is Some,
        primero_instalar_php_de(e) is Some ==> primero_instalar_php_de(e) == Some(PasoInstalarPhp::Actualizar),
        siguiente_instalar_php_de(p, exito) == Some(PasoInstalarPhp::Instalar)
            <==> (p == PasoInstalarPhp::BuscarPaquetes && exito),
        siguiente_instalar_php_de(PasoInstalarPhp::Actualizar, exito) == Some(PasoInstalarPhp::BuscarPaquetes),
        siguiente_instalar_php_de(PasoInstalarPhp::Instalar, exito) == Some(PasoInstalarPhp::DesactivarFpm),
        siguiente_instalar_php_de(PasoInstalarPhp::DesactivarFpm, exito) is None,
{
}

/// Purging modules needs a chosen version; each step runs only after the
/// one before it succeeded, so nothing is purged unless modules were listed
/// and picked, and `autoremove` runs only after the purge could start.
pub proof fn lemma_orden_modulos(e: Option<usize>, p: PasoModulos, exito: bool)
    ensures
        primero_modulos_de(e) is Some <==> e is Some,
        primero_modulos_de(e) is Some ==> primero_modulos_de(e) == Some(PasoModulos::ListarModulos),
        siguiente_modulos_de(p, false) is None,
        siguiente_modulos_de(p, exito) == Some(PasoModulos::Purgar) <==> (p == PasoModulos::ElegirModulos && exito),
        siguiente_modulos_de(p, exito) == Some(PasoModulos::Autoeliminar) <==> (p == PasoModulos::Purgar && exito),
        siguiente_modulos_de(p, exito) == Some(PasoModulos::ElegirModulos) <==> (p == PasoModulos::ListarModulos && exito),
{
}

/// Uninstalling a PHP version needs a chosen version, then runs purge,
/// autoremove and clean, each whatever the one before gave.
pub proof fn lemma_orden_desinstalar(e: Option<usize>, p: PasoDesinstalar, exito: bool)
    ensures
        primero_desinstalar_de(e) is Some <==> e is Some,
        primero_desinstalar_de(e) is Some ==> primero_desinstalar_de(e) == Some(PasoDesinstalar::Purgar),
        siguiente_desinstalar_de(p, exito) == siguiente_desinstalar_de(p, !exito),
        siguiente_desinstalar_de(PasoDesinstalar::Purgar, exito) == Some(PasoDesinstalar::Autoeliminar),
        siguiente_desinstalar_de(PasoDesinstalar::Autoeliminar, exito) == Some(PasoDesinstalar::Limpiar),
        siguiente_desinstalar_de(PasoDesinstalar::Limpiar, exito) is None,
{
}

/// The MySQL hardening needs matching passwords; a failed step ends it,
/// except the password-policy step, which is always followed by setting the
/// root password; the statements go one after another from the first to the
/// last; the server restarts only after the last statement succeeded, and
/// success is reported only after the firewall rule.
pub proof fn lemma_orden_mysql(ok: bool, p: PasoMysql, exito: bool, i: usize)
    ensures
        primero_mysql_de(ok) is Some <==> ok,
        ok ==> primero_mysql_de(ok) == Some(PasoMysql::Arrancar),
        p != PasoMysql::Politicas ==> siguiente_mysql_de(p, false) is None,
        siguiente_mysql_de(PasoMysql::Politicas, exito) == Some(PasoMysql::ClaveRoot),
        siguiente_mysql_de(PasoMysql::Conectar, true) == Some(PasoMysql::Consulta(0)),
        i + 1 < CONSULTAS_SEGURIDAD ==> siguiente_mysql_de(PasoMysql::Consulta(i), true) == Some(PasoMysql::Consulta((i + 1) as usize)),
        siguiente_mysql_de(p, exito) == Some(PasoMysql::Reiniciar)
            <==> (p is Consulta && p->0 + 1 >= CONSULTAS_SEGURIDAD && exito),
        siguiente_mysql_de(p, exito) == Some(PasoMysql::Exito) <==> (p == PasoMysql::Firewall && exito),
        siguiente_mysql_de(p, exito) == Some(PasoMysql::Firewall) <==> (p == PasoMysql::Reiniciar && exito),
{
}

/// phpMyAdmin is installed only after the debconf answers were preloaded,
/// and its success is reported only after the install succeeded.
pub proof fn lemma_orden_phpmyadmin(p: PasoPhpMyAdmin, exito: bool)
    ensures
        siguiente_phpmyadmin_de(p, false) is None,
        siguiente_phpmyadmin_de(p, exito) == Some(PasoPhpMyAdmin::Instalar) <==> (p == PasoPhpMyAdmin::Debconf && exito),
        siguiente_phpmyadmin_de(p, exito) == Some(PasoPhpMyAdmin::Exito) <==> (p == PasoPhpMyAdmin::Instalar && exito),
{
}

/// The order of the launcher installation when every step succeeds.
pub open spec fn orden_arranque() -> Seq<PasoArranque> {
    seq![
        PasoArranque::Ruta,
        PasoArranque::BorrarAnterior,
        PasoArranque::Copiar,
        PasoArranque::Permisos,
        PasoArranque::Lanzador,
        PasoArranque::PermisosLanzador,
        PasoArranque::Exito,
    ]
}

/// The launcher installation goes through its steps in order; a failure
/// ends it, except removing the old copy and setting the launcher's mode;
/// the launcher is written only after the copy was made executable.
pub proof fn lemma_orden_arranque(p: PasoArranque, exito: bool)
    ensures
        forall|i: int| 0 <= i < 6 ==> siguiente_arranque_de(#[trigger] orden_arranque()[i], true) == Some(orden_arranque()[i + 1]),
        p != PasoArranque::BorrarAnterior && p != PasoArranque::PermisosLanzador ==> siguiente_arranque_de(p, false) is None,
        p == PasoArranque::BorrarAnterior || p == PasoArranque::PermisosLanzador
            ==> siguiente_arranque_de(p, false) == siguiente_arranque_de(p, true),
        siguiente_arranque_de(p, exito) == Some(PasoArranque::Lanzador) <==> (p == PasoArranque::Permisos && exito),
        siguiente_arranque_de(PasoArranque::Exito, exito) is None,
{
    assert forall|i: int| 0 <= i < 6 implies siguiente_arranque_de(#[trigger] orden_arranque()[i], true) == Some(orden_arranque()[i + 1]) by {
        if i == 0 {} else if i == 1 {} else if i == 2 {} else if i == 3 {} else if i == 4 {} else {}
    }
}

/// Drivers need a machine; the package lists are updated first; only a
/// machine that is not virtual gets the whole system update, and the
/// packages are installed last.
pub proof fn lemma_orden_drivers(m: Option<Maquina>, q: Maquina, p: PasoDrivers)
    ensures
        primero_drivers_de(m) is Some <==> m is Some,
        m is Some ==> primero_drivers_de(m) == Some(PasoDrivers::Actualizar),
        siguiente_drivers_de(q, p) == Some(PasoDrivers::MejorarServidor) <==> (p == PasoDrivers::Actualizar && q == Maquina::SinVm),
        p != PasoDrivers::Instalar ==> siguiente_drivers_de(q, p) is Some,
        siguiente_drivers_de(q, PasoDrivers::Instalar) is None,
{
}

/// `reboot` runs only after a yes, and the program exits only after
/// `reboot` succeeded.
pub proof fn lemma_orden_reinicio(confirmado: bool, p: PasoReinicio, exito: bool)
    ensures
        primero_reinicio_de(confirmado) == PasoReinicio::Reiniciar <==> confirmado,
        siguiente_reinicio_de(p, exito) == Some(PasoReinicio::Salir) <==> (p == PasoReinicio::Reiniciar && exito),
        siguiente_reinicio_de(p, exito) != Some(PasoReinicio::Reiniciar),
{
}

/// The order of site creation when every step succeeds.
pub open spec fn orden_sitio() -> Seq<PasoSitio> {
    seq![
        PasoSitio::Nombre,
        PasoSitio::Libre,
        PasoSitio::Versiones,
        PasoSitio::ElegirVersion,
        PasoSitio::EscribirVhost,
        PasoSitio::CrearDirectorio,
        PasoSitio::Permisos,
        PasoSitio::Habilitar,
        PasoSitio::Hosts,
        PasoSitio::Reiniciar,
        PasoSitio::Exito,
    ]
}

/// Site creation goes through its steps in order, any failed step ends it,
/// and each step is reached only from the one before it after that one
/// succeeded; so Apache is restarted and success reported only when every
/// earlier step succeeded.
pub proof fn lemma_orden_sitio(p: PasoSitio, exito: bool)
    ensures
        primero_sitio_de() == orden_sitio()[0],
        forall|i: int| 0 <= i < 10 ==> siguiente_sitio_de(#[trigger] orden_sitio()[i], true) == Some(orden_sitio()[i + 1]),
        siguiente_sitio_de(p, false) is None,
        siguiente_sitio_de(PasoSitio::Exito, exito) is None,
        siguiente_sitio_de(p, exito) is Some ==> exito,
        siguiente_sitio_de(p, exito) == Some(PasoSitio::EscribirVhost) <==> (p == PasoSitio::ElegirVersion && exito),
        siguiente_sitio_de(p, exito) == Some(PasoSitio::Reiniciar) <==> (p == PasoSitio::Hosts && exito),
        siguiente_sitio_de(p, exito) == Some(PasoSitio::Exito) <==> (p == PasoSitio::Reiniciar && exito),
{
    assert forall|i: int| 0 <= i < 10 implies siguiente_sitio_de(#[trigger] orden_sitio()[i], true) == Some(orden_sitio()[i + 1]) by {
        if i == 0 {} else if i == 1 {} else if i == 2 {} else if i == 3 {} else if i == 4 {}
        else if i == 5 {} else if i == 6 {} else if i == 7 {} else if i == 8 {} else {}
    }
}

/// Editing a site stops at the first failure up to the write; the backup
/// is made before the file is read or written; Apache is restarted only
/// after a successful `configtest`, a failed test points to the backup, and
/// the configuration is confirmed only after the restart succeeded.
pub proof fn lemma_orden_editar(p: PasoEditar, exito: bool)
    ensures
        primero_editar_de() == PasoEditar::Listar,
        p != PasoEditar::Probar ==> siguiente_editar_de(p, false) is None,
        siguiente_editar_de(p, exito) == Some(PasoEditar::Respaldo) <==> (p == PasoEditar::Elegir && exito),
        siguiente_editar_de(p, exito) == Some(PasoEditar::Leer) <==> (p == PasoEditar::Respaldo && exito),
        siguiente_editar_de(p, exito) == Some(PasoEditar::Escribir) <==> (p == PasoEditar::Preguntar && exito),
        siguiente_editar_de(p, exito) == Some(PasoEditar::Probar) <==> (p == PasoEditar::Escribir && exito),
        siguiente_editar_de(p, exito) == Some(PasoEditar::Reiniciar) <==> (p == PasoEditar::Probar && exito),
        siguiente_editar_de(p, exito) == Some(PasoEditar::AvisoRespaldo) <==> (p == PasoEditar::Probar && !exito),
        siguiente_editar_de(p, exito) == Some(PasoEditar::Confirmar) <==> (p == PasoEditar::Reiniciar && exito),
{
}

/// The CMS installer: no site, no step; a bad site choice ends it; the
/// site is emptied only right after a yes, and nothing follows; the test
/// page changes owner only after it was written; the package is downloaded
/// only when the cache lacks it, and nothing follows a failed download;
/// extraction needs an empty site, or the answer to clean it or keep its
/// files; the site changes owner only after a successful extraction.
pub proof fn lemma_orden_cms(hay: bool, p: PasoCms, e: EventoCms, c: Cms)
    ensures
        primero_cms_de(hay) is Some <==> hay,
        siguiente_cms_de(PasoCms::ElegirSitio, EventoCms::Hecho(false)) is None,
        siguiente_cms_de(p, e) == Some(PasoCms::Vaciar) <==> (p == PasoCms::Confirmar && e == EventoCms::Hecho(true)),
        siguiente_cms_de(PasoCms::Vaciar, e) is None,
        siguiente_cms_de(p, e) == Some(PasoCms::PropietarioInfo) <==> (p == PasoCms::EscribirInfo && e == EventoCms::Hecho(true)),
        siguiente_cms_de(p, e) == Some(PasoCms::Descargar(c)) <==> (p == PasoCms::MirarCache(c) && e == EventoCms::Hecho(false)),
        siguiente_cms_de(PasoCms::Descargar(c), EventoCms::Hecho(false)) is None,
        siguiente_cms_de(p, e) == Some(PasoCms::Extraer(c)) <==> (
            p == PasoCms::MirarDestino(c) && e == EventoCms::Hecho(true)
            || p == PasoCms::ElegirDestino(c) && e == EventoCms::Destino(AccionDirectorio::Conservar)
            || p == PasoCms::LimpiarDestino(c)),
        siguiente_cms_de(p, e) == Some(PasoCms::PropietarioSitio) <==> (p is Extraer && e == EventoCms::Hecho(true)),
        siguiente_cms_de(PasoCms::PropietarioSitio, e) is None,
        siguiente_cms_de(PasoCms::PropietarioInfo, e) is None,
{
}

} // verus!
