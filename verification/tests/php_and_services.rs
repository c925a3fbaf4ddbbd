use runaserver::data::{module_package, search_module};
use runaserver::menu::{opcion_principal, opcion_submenu, MenuPrincipal, Submenu};
use runaserver::mysql::{configurar_mysql_seguro, instalar_phpmyadmin, passwords_ok, root_password_query};
use runaserver::php::{
    desinstalacion_php, disable_all_fpm_apache, module_packages, modulos_instalados, modulos_php,
    php_activo, versiones_instaladas_php, Descartado,
};
use runaserver::servicios::{auto_start, drivers_needed, reboot, select_language, Idioma, Maquina, TARGET_BIN};

fn strings(v: &[&str]) -> Vec<String> {
    v.iter().map(|s| s.to_string()).collect()
}

#[test]
fn installed_php_listing() {
    let got = versiones_instaladas_php(strings(&["php8.3", "php7.4", "phpize8.3", "ls"]));
    assert_eq!(got, strings(&["1) PHP7.4", "2) PHP8.3"]));
}

#[test]
fn module_packages_skip_empty_suffixes() {
    let got = module_packages("8.3", &strings(&["cli", "", "mysql"]));
    assert_eq!(got, strings(&["php8.3-cli", "php8.3-mysql"]));
    assert_eq!(module_package("8.1", "fpm"), "php8.1-fpm");
}

#[test]
fn search_module_status() {
    assert!(search_module("'installed'"));
    assert!(!search_module(""));
    assert!(search_module("not-installed"));
}

#[test]
fn fpm_confs_to_disable() {
    let got = disable_all_fpm_apache(&strings(&["php8.3-fpm.conf", "security.conf", "php7.4-fpm.conf", "phpmyadmin.conf"]));
    assert_eq!(got, strings(&["php8.3-fpm", "php7.4-fpm"]));
}

#[test]
fn purge_targets() {
    let (a, b) = desinstalacion_php("8.1");
    assert_eq!(a, "php8.1*");
    assert_eq!(b, "libapache2-mod-php8.1");
}

#[test]
fn modules_from_dpkg_listing() {
    let listado = "ii  php8.3-cli  8.3.6  amd64  CLI\nii  php8.3-mysql 8.3.6 amd64 MySQL\nii  php8.1-cli 8.1 amd64 x\nii php8.3-\nrc  libphp8.3-embed 1 amd64 x\n";
    let got = modulos_instalados(listado, "8.3");
    assert_eq!(got, strings(&["php8.3-cli", "php8.3-mysql", "php8.3-", "libphp8.3-embed"]));
}

#[test]
fn module_selection() {
    let modulos = strings(&["php8.3-cli", "php8.3-mysql", "php8.3-xml"]);
    let (picked, ignored) = modulos_php(" 3 1 9 x 0 3 ", &modulos);
    assert_eq!(picked, strings(&["php8.3-xml", "php8.3-cli", "php8.3-xml"]));
    assert_eq!(ignored.len(), 3);
    assert!(matches!(ignored[0], Descartado::FueraDeRango(9)));
    assert!(matches!(&ignored[1], Descartado::NoNumero(s) if s == "x"));
    assert!(matches!(ignored[2], Descartado::FueraDeRango(0)));
    assert_eq!(picked.len() + ignored.len(), 6);
    let (none, rest) = modulos_php("   ", &modulos);
    assert!(none.is_empty() && rest.is_empty());
}

#[test]
fn php_status_lines() {
    let (cli, apache) = php_activo(Some("8.3"), Some("8.1\n8.3\n"));
    assert_eq!(cli, "8.3");
    assert_eq!(apache, "8.1\n8.3");
    let (cli, apache) = php_activo(None, Some(""));
    assert_eq!(cli, "No instalado o no disponible");
    assert_eq!(apache, "Ningún módulo de PHP activo");
    let (_, apache) = php_activo(Some(""), None);
    assert_eq!(apache, "Ningún módulo de PHP activo");
}

#[test]
fn language_prompt() {
    assert_eq!(select_language("1"), Idioma::Ingles);
    assert_eq!(select_language(""), Idioma::Ingles);
    assert_eq!(select_language(" 2 "), Idioma::Espanol);
    assert_eq!(select_language("3"), Idioma::Invalido);
}

#[test]
fn drivers_prompt() {
    assert_eq!(drivers_needed("1"), Some(Maquina::VirtualBox));
    assert_eq!(drivers_needed(" 2\n"), Some(Maquina::VMWare));
    assert_eq!(drivers_needed("+3"), Some(Maquina::SinVm));
    assert_eq!(drivers_needed("4"), None);
    assert_eq!(drivers_needed("x"), None);
    assert_eq!(Maquina::VirtualBox.package_key(), "pkg_virtualbox");
    assert_eq!(Maquina::VMWare.package_key(), "pkg_vmware");
    assert_eq!(Maquina::SinVm.package_key(), "pkg_no_vm");
}

#[test]
fn reboot_prompt() {
    for yes in ["s", "SI", " Yes\n", "y", "sI"] {
        assert!(reboot(yes), "{yes}");
    }
    for no in ["", "n", "no", "yess", "sí"] {
        assert!(!reboot(no), "{no}");
    }
}

#[test]
fn launcher_script() {
    let expected = format!(
        "#!/bin/sh\n\
        if [ \"$EUID\" -eq 0 ]; then\n\
        \texec \"{}\" \"$@\"\n\
        else\n\
        \texec pkexec \"{}\" \"$@\"\n\
        fi\n",
        TARGET_BIN, TARGET_BIN
    );
    assert_eq!(auto_start(TARGET_BIN), expected);
}

#[test]
fn mysql_password_and_queries() {
    assert!(passwords_ok("abc", "abc"));
    assert!(!passwords_ok("abc", "abd"));
    assert!(!passwords_ok("", ""));
    assert_eq!(
        root_password_query("p4ss"),
        "ALTER USER 'root'@'localhost' IDENTIFIED WITH caching_sha2_password BY 'p4ss';"
    );
    let q = configurar_mysql_seguro("pw");
    assert_eq!(q.len(), 7);
    assert_eq!(q[2], "DELETE FROM mysql.db WHERE Db='test' OR Db='test\\_%';");
    assert_eq!(q[3], "CREATE USER IF NOT EXISTS 'root'@'%' IDENTIFIED WITH caching_sha2_password BY 'pw';");
    assert_eq!(q[6], "FLUSH PRIVILEGES;");
}

#[test]
fn phpmyadmin_preseed() {
    let configs = [
        "phpmyadmin phpmyadmin/reconfigure-webserver multiselect apache2",
        "phpmyadmin phpmyadmin/dbconfig-install boolean true",
        "phpmyadmin phpmyadmin/mysql/admin-pass password root",
        "phpmyadmin phpmyadmin/app-password-confirm password root",
        "phpmyadmin phpmyadmin/mysql/app-pass password root",
    ]
    .join("\n");
    assert_eq!(instalar_phpmyadmin(), format!("echo '{}' | debconf-set-selections", configs));
}

#[test]
fn main_menu_choices() {
    assert_eq!(opcion_principal("1\n"), MenuPrincipal::ActualizarServidor);
    assert_eq!(opcion_principal("php"), MenuPrincipal::Php);
    assert_eq!(opcion_principal("PHP"), MenuPrincipal::Php);
    assert_eq!(opcion_principal("Php"), MenuPrincipal::Ninguna);
    assert_eq!(opcion_principal("APACHE"), MenuPrincipal::Apache);
    assert_eq!(opcion_principal("10"), MenuPrincipal::Mysql);
    assert_eq!(opcion_principal("MySQL"), MenuPrincipal::Mysql);
    assert_eq!(opcion_principal("12"), MenuPrincipal::Idioma);
    assert_eq!(opcion_principal("exit"), MenuPrincipal::Salir);
    assert_eq!(opcion_principal("00"), MenuPrincipal::Reiniciar);
    assert_eq!(opcion_principal("?"), MenuPrincipal::Reiniciar);
    assert_eq!(opcion_principal(""), MenuPrincipal::Ninguna);
    assert_eq!(opcion_principal("13"), MenuPrincipal::Ninguna);
}

#[test]
fn submenu_choices() {
    assert_eq!(opcion_submenu("3", 6), Submenu::Accion(3));
    assert_eq!(opcion_submenu("7", 6), Submenu::Ninguna);
    assert_eq!(opcion_submenu("\n", 6), Submenu::Volver);
    assert_eq!(opcion_submenu("0", 2), Submenu::Volver);
    assert_eq!(opcion_submenu("exit", 2), Submenu::Volver);
    assert_eq!(opcion_submenu("2", 2), Submenu::Accion(2));
    assert_eq!(opcion_submenu("12", 6), Submenu::Ninguna);
}
