use runaserver::data::{get_installable_php, get_installed_php, get_installed_php_fpm, sort_versions};

fn strings(v: &[&str]) -> Vec<String> {
    v.iter().map(|s| s.to_string()).collect()
}

#[test]
fn sort_versions_orders_and_dedups() {
    let got = sort_versions(strings(&["php8.1-cli", "php7.4", "php8.1", "php8.10", "php8.2-fpm"]));
    assert_eq!(got, strings(&["7.4", "8.1", "8.2", "8.10"]));
}

#[test]
fn sort_versions_skips_non_versions() {
    let got = sort_versions(strings(&["php", "phpmyadmin", "php-common", "php8", "php8.", "apache2", "php.8.1"]));
    assert!(got.is_empty());
}

#[test]
fn sort_versions_trims_and_takes_minor_digits() {
    let got = sort_versions(strings(&["  php8.3-opcache \n", "php5.6.40", "\tphp10.0x"]));
    assert_eq!(got, strings(&["5.6", "8.3", "10.0"]));
}

#[test]
fn sort_versions_rejects_overflowing_numbers() {
    let got = sort_versions(strings(&["php4294967296.1", "php4294967295.0", "php1.4294967296"]));
    assert_eq!(got, strings(&["4294967295.0"]));
}

#[test]
fn sort_versions_relisting_is_stable() {
    let first = sort_versions(strings(&["php8.2", "php7.4-fpm", "php8.2-mysql"]));
    let renamed: Vec<String> = first.iter().map(|v| format!("php{}", v)).collect();
    assert_eq!(sort_versions(renamed), first);
}

#[test]
fn installable_php_from_apt_listing() {
    let listing = "php8.3\nphp8.3-cli\r\nphp7.4-fpm\nphpunit\n";
    assert_eq!(get_installable_php(listing, true), strings(&["7.4", "8.3"]));
    assert!(get_installable_php(listing, false).is_empty());
}

#[test]
fn installed_php_needs_php_prefix_without_trim() {
    let got = get_installed_php(strings(&["php8.1", " php7.0", "php-config8.1", "php8.3"]));
    assert_eq!(got, strings(&["8.1", "8.3"]));
}

#[test]
fn installed_php_fpm_from_directories() {
    let got = get_installed_php_fpm(strings(&["8.3", "7.4", "8.3", "mods"]));
    assert_eq!(got, strings(&["7.4", "8.3"]));
}

#[test]
fn sort_versions_join_order_irrelevant() {
    let a: Vec<String> = ["php8.3-cli", "php7.4", "x"].iter().map(|s| s.to_string()).collect();
    let b: Vec<String> = ["php8.1-fpm", "php8.3"].iter().map(|s| s.to_string()).collect();
    let ab: Vec<String> = a.iter().chain(b.iter()).cloned().collect();
    let ba: Vec<String> = b.iter().chain(a.iter()).cloned().collect();
    assert_eq!(runaserver::data::sort_versions(ab.clone()), runaserver::data::sort_versions(ba));
    assert_eq!(runaserver::data::sort_versions(ab), vec!["7.4", "8.1", "8.3"]);
}

#[test]
fn installed_packages_from_dpkg_listing() {
    let listado = "Desired=Unknown/Install/Remove/Purge/Hold\n||/ Name Version Architecture Description\n+++-==============-=======\nii  php8.3-cli  8.3.6  amd64  cli\nrc  php7.4-fpm  7.4.3  amd64  fpm\nii  php8.1  8.1.2  all  meta\nii\n";
    let got = runaserver::data::paquetes_instalados(listado);
    assert_eq!(got, vec!["php8.3-cli", "php8.1"]);
    assert_eq!(get_installed_php(got), vec!["8.1", "8.3"]);
}
