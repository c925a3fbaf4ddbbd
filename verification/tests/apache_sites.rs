use runaserver::apache::{
    accion_directorio, apache_version, backup_path, cache_dir, cache_file, clean_command,
    confirma_vaciar, document_root, edit_site, fpm_service_name, hosts_line, info_php_path,
    instalar_cms, obtener_versiones_fpm_nativas, site_domain, site_paths, valid_site_name,
    vhost_content, AccionDirectorio, Cms, OpcionCms, SitioActivo,
};

fn strings(v: &[&str]) -> Vec<String> {
    v.iter().map(|s| s.to_string()).collect()
}

#[test]
fn fpm_versions_sorted_numerically() {
    let nombres = strings(&[
        "php8.10-fpm.conf",
        "php8.2-fpm.conf",
        "php7.4-fpm.conf",
        "security.conf",
        "php-fpm.conf",
        "php8.x-fpm.conf",
        "php8.2-fpm.conf",
        "php8.3-fpm.conf.bak",
    ]);
    assert_eq!(obtener_versiones_fpm_nativas(nombres), strings(&["7.4", "8.2", "8.10"]));
}

#[test]
fn fpm_versions_sort_is_stable_and_dedup_is_textual() {
    // "8.02" and "8.2" have the same key: they keep their order and both stay.
    let nombres = strings(&["php8.02-fpm.conf", "php8.2-fpm.conf", "php8-fpm.conf", "php8.02-fpm.conf"]);
    assert_eq!(obtener_versiones_fpm_nativas(nombres), strings(&["8", "8.02", "8.2", "8.02"]));
}

#[test]
fn fpm_versions_empty_parts_and_overflow_count_as_zero() {
    let nombres = strings(&["php1..1-fpm.conf", "php1.0.2-fpm.conf", "php99999999999.1-fpm.conf", "php.-fpm.conf"]);
    assert_eq!(
        obtener_versiones_fpm_nativas(nombres),
        strings(&[".", "99999999999.1", "1..1", "1.0.2"])
    );
}

#[test]
fn apache_version_word() {
    let out = "Server version: Apache/2.4.58 (Ubuntu)\nServer built:   2024-01-01\n";
    assert_eq!(apache_version(out), Some("Apache/2.4.58".to_string()));
    assert_eq!(apache_version("nothing here"), None);
    assert_eq!(apache_version("xApache/"), Some("Apache/".to_string()));
}

#[test]
fn site_name_rules() {
    assert!(valid_site_name("mi.sitio_1-a"));
    assert!(valid_site_name("café"));
    assert!(!valid_site_name(""));
    assert!(!valid_site_name("mi sitio"));
    assert!(!valid_site_name("a/b"));
}

#[test]
fn site_files() {
    let (conf, web) = site_paths("blog");
    assert_eq!(conf, "/etc/apache2/sites-available/blog.conf");
    assert_eq!(web, "/var/www/blog");
    assert_eq!(hosts_line("192.168.1.5", "blog"), "192.168.1.5   blog.lan");
    assert_eq!(fpm_service_name("8.3"), "php8.3-fpm");
}

#[test]
fn vhost_content_matches_template() {
    let expected = format!(
        "<VirtualHost *:80>\n\
        \tServerName {sitio}.lan\n\
        \tDocumentRoot {web_dir}\n\n\
        \t<Directory {web_dir}>\n\
        \t\tAllowOverride All\n\
        \t\tRequire all granted\n\
        \t</Directory>\n\n\
        \t<FilesMatch \"\\.php$\">\n\
        \t\t<IfModule mod_proxy_fcgi.c>\n\
        \t\t\tSetHandler \"proxy:unix:/run/php/php{ver}-fpm.sock|fcgi://localhost\"\n\
        \t\t</IfModule>\n\
        \t</FilesMatch>\n\
        </VirtualHost>",
        sitio = "blog",
        web_dir = "/var/www/blog",
        ver = "8.3"
    );
    assert_eq!(vhost_content("blog", "/var/www/blog", "8.3"), expected);
}

#[test]
fn document_root_of_site_file() {
    let conf = "<VirtualHost *:80>\n  ServerName a.lan\n  documentroot \"/var/www/a\" x\n  DocumentRoot /other\n";
    assert_eq!(document_root(conf), Some("/var/www/a".to_string()));
    assert_eq!(document_root("\tDocumentRoot '/srv/b'\r\n"), Some("/srv/b".to_string()));
    assert_eq!(document_root("DocumentRoot\nDocumentRoot /x\n"), None);
    assert_eq!(document_root("ServerName x\n"), None);
    assert_eq!(document_root("DocumentRootX /y\n"), Some("/y".to_string()));
}

#[test]
fn edit_site_replaces_first_matches() {
    let conf = "<VirtualHost *:80>\n\tServerName old.lan\n\tDocumentRoot /var/www/old\n\t<Directory /var/www/old>\n\t</Directory>\n\tSetHandler \"proxy:unix:/run/php/php8.1-fpm.sock|fcgi://localhost\"\n</VirtualHost>";
    let edited = edit_site(conf, "/srv/new", "8.3", "new.lan");
    assert_eq!(
        edited,
        "<VirtualHost *:80>\n\tServerName new.lan\n\tDocumentRoot /srv/new\n\t<Directory /srv/new>\n\t</Directory>\n\tSetHandler \"proxy:unix:/run/php/php8.3-fpm.sock|fcgi://localhost\"\n</VirtualHost>"
    );
    assert_eq!(edit_site(conf, "", "", ""), conf);
}

#[test]
fn cms_menu() {
    assert_eq!(instalar_cms("1\n"), OpcionCms::Instalar(Cms::WordPress));
    assert_eq!(instalar_cms("2"), OpcionCms::Instalar(Cms::Joomla));
    assert_eq!(instalar_cms("3"), OpcionCms::Instalar(Cms::Drupal));
    assert_eq!(instalar_cms("4"), OpcionCms::Instalar(Cms::Moodle));
    assert_eq!(instalar_cms("5"), OpcionCms::InfoPhp);
    assert_eq!(instalar_cms(" 6 "), OpcionCms::Vaciar);
    assert_eq!(instalar_cms("0"), OpcionCms::Invalida);
    assert_eq!(instalar_cms("7"), OpcionCms::Invalida);
    assert!(Cms::Joomla.es_zip());
    assert!(!Cms::WordPress.es_zip());
    assert_eq!(Cms::Moodle.archivo_cache(), "moodle_4.x.tgz");
    assert_eq!(Cms::Drupal.url(), "https://www.drupal.org/download-latest/tar.gz");
    assert_eq!(Cms::WordPress.nombre(), "WordPress");
}

#[test]
fn cms_paths_and_answers() {
    assert_eq!(info_php_path("/var/www/a"), "/var/www/a/info.php");
    assert_eq!(clean_command("/var/www/a"), "find /var/www/a -mindepth 1 -delete");
    assert_eq!(cache_dir("/root"), "/root/Documentos/cms_cache");
    assert_eq!(cache_file("/root/Documentos/cms_cache", "x.zip"), "/root/Documentos/cms_cache/x.zip");
    assert_eq!(site_domain("blog.conf"), "blog");
    assert_eq!(site_domain("a.conf.conf"), "a");
    assert_eq!(site_domain("blog"), "blog");
    assert_eq!(backup_path("/etc/apache2/sites-available/a.conf"), "/etc/apache2/sites-available/a.conf.bak");
    assert_eq!(accion_directorio("1"), AccionDirectorio::Limpiar);
    assert_eq!(accion_directorio(" 2\n"), AccionDirectorio::Conservar);
    assert_eq!(accion_directorio("0"), AccionDirectorio::Cancelar);
    assert!(confirma_vaciar("S"));
    assert!(confirma_vaciar(" s\n"));
    assert!(!confirma_vaciar("si"));
}

#[test]
fn active_site_fields() {
    let s = SitioActivo::new("blog".to_string(), "/var/www/blog".to_string());
    assert_eq!(s.nombre(), "blog");
    assert_eq!(s.ruta(), "/var/www/blog");
}
