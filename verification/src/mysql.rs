//! MySQL hardening: the password check and the statements sent to the
//! server, and the answers preloaded for phpMyAdmin.
use vstd::prelude::*;
use crate::text::{chars_of, string_from_chars, push_str};
use crate::data::views;

verus! {

/// The root password is usable: typed, and typed the same twice.
pub fn passwords_ok(pass: &str, confirm: &str) -> (r: bool)
    ensures
        r == (pass@.len() > 0 && pass@ == confirm@),
{
    let a = chars_of(pass);
    let b = chars_of(confirm);
    a.len() > 0 && crate::public::chars_eq(&a, &b)
}

fn quoted_statement(head: &str, pass: &str) -> (r: String)
    ensures
        r@ == head@ + pass@ + "';"@,
{
    let mut out: Vec<char> = Vec::new();
    push_str(&mut out, head);
    push_str(&mut out, pass);
    push_str(&mut out, "';");
    string_from_chars(out.as_slice())
}

/// The statement that sets the local root password (sent with the `mysql`
/// client before connecting).
pub fn root_password_query(pass: &str) -> (r: String)
    ensures
        r@ == "ALTER USER 'root'@'localhost' IDENTIFIED WITH caching_sha2_password BY '"@ + pass@ + "';"@,
{
    quoted_statement("ALTER USER 'root'@'localhost' IDENTIFIED WITH caching_sha2_password BY '", pass)
}

/// The hardening statements, in the order they are run: drop anonymous
/// users and the test database, give the remote root the same password,
/// grant it all privileges, and reload the grant tables.
pub open spec fn security_statements(pass: Seq<char>) -> Seq<Seq<char>> {
    seq![
        "DELETE FROM mysql.user WHERE User='';"@,
        "DROP DATABASE IF EXISTS test;"@,
        "DELETE FROM mysql.db WHERE Db='test' OR Db='test\\_%';"@,
        "CREATE USER IF NOT EXISTS 'root'@'%' IDENTIFIED WITH caching_sha2_password BY '"@ + pass + "';"@,
        "ALTER USER 'root'@'%' IDENTIFIED WITH caching_sha2_password BY '"@ + pass + "';"@,
        "GRANT ALL PRIVILEGES ON *.* TO 'root'@'%' WITH GRANT OPTION;"@,
        "FLUSH PRIVILEGES;"@,
    ]
}

/// The account the hardening creates, gives the password to and grants
/// every privilege to: the remote root.
pub open spec fn remote_root() -> Seq<char> {
    "'root'@'%'"@
}

/// The hardening statements drop the anonymous users and the test
/// database, then create the remote root, set its password to the one
/// given, grant all privileges to that same account, and reload the grant
/// tables last.
pub proof fn lemma_hardening_account(pass: Seq<char>)
    ensures
        security_statements(pass).len() == 7,
        security_statements(pass)[0] == "DELETE FROM mysql.user WHERE User='';"@,
        security_statements(pass)[1] == "DROP DATABASE IF EXISTS test;"@,
        security_statements(pass)[2] == "DELETE FROM mysql.db WHERE Db='test' OR Db='test\\_%';"@,
        security_statements(pass)[3]
            == "CREATE USER IF NOT EXISTS "@ + remote_root() + " IDENTIFIED WITH caching_sha2_password BY '"@ + pass + "';"@,
        security_statements(pass)[4]
            == "ALTER USER "@ + remote_root() + " IDENTIFIED WITH caching_sha2_password BY '"@ + pass + "';"@,
        security_statements(pass)[5] == "GRANT ALL PRIVILEGES ON *.* TO "@ + remote_root() + " WITH GRANT OPTION;"@,
        security_statements(pass)[6] == "FLUSH PRIVILEGES;"@,
{
    reveal_strlit("'root'@'%'");
    reveal_strlit("CREATE USER IF NOT EXISTS ");
    reveal_strlit(" IDENTIFIED WITH caching_sha2_password BY '");
    reveal_strlit("CREATE USER IF NOT EXISTS 'root'@'%' IDENTIFIED WITH caching_sha2_password BY '");
    reveal_strlit("ALTER USER ");
    reveal_strlit("ALTER USER 'root'@'%' IDENTIFIED WITH caching_sha2_password BY '");
    reveal_strlit("GRANT ALL PRIVILEGES ON *.* TO ");
    reveal_strlit(" WITH GRANT OPTION;");
    reveal_strlit("GRANT ALL PRIVILEGES ON *.* TO 'root'@'%' WITH GRANT OPTION;");
    let ss = security_statements(pass);
    assert("CREATE USER IF NOT EXISTS 'root'@'%' IDENTIFIED WITH caching_sha2_password BY '"@
        =~= "CREATE USER IF NOT EXISTS "@ + remote_root() + " IDENTIFIED WITH caching_sha2_password BY '"@);
    assert("ALTER USER 'root'@'%' IDENTIFIED WITH caching_sha2_password BY '"@
        =~= "ALTER USER "@ + remote_root() + " IDENTIFIED WITH caching_sha2_password BY '"@);
    assert("GRANT ALL PRIVILEGES ON *.* TO 'root'@'%' WITH GRANT OPTION;"@
        =~= "GRANT ALL PRIVILEGES ON *.* TO "@ + remote_root() + " WITH GRANT OPTION;"@);
    assert(ss[3] =~= "CREATE USER IF NOT EXISTS "@ + remote_root() + " IDENTIFIED WITH caching_sha2_password BY '"@ + pass + "';"@);
    assert(ss[4] =~= "ALTER USER "@ + remote_root() + " IDENTIFIED WITH caching_sha2_password BY '"@ + pass + "';"@);
}

fn text(s: &str) -> (r: String)
    ensures
        r@ == s@,
{
    string_from_chars(chars_of(s).as_slice())
}

/// The hardening statements for a root password.
pub fn configurar_mysql_seguro(pass: &str) -> (r: Vec<String>)
    ensures
        views(r@) == security_statements(pass@),
        r.len() == crate::pasos::CONSULTAS_SEGURIDAD,
{
    let mut r: Vec<String> = Vec::new();
    r.push(text("DELETE FROM mysql.user WHERE User='';"));
    r.push(text("DROP DATABASE IF EXISTS test;"));
    r.push(text("DELETE FROM mysql.db WHERE Db='test' OR Db='test\\_%';"));
    r.push(quoted_statement("CREATE USER IF NOT EXISTS 'root'@'%' IDENTIFIED WITH caching_sha2_password BY '", pass));
    r.push(quoted_statement("ALTER USER 'root'@'%' IDENTIFIED WITH caching_sha2_password BY '", pass));
    r.push(text("GRANT ALL PRIVILEGES ON *.* TO 'root'@'%' WITH GRANT OPTION;"));
    r.push(text("FLUSH PRIVILEGES;"));
    proof {
        assert(views(r@) =~= security_statements(pass@));
    }
    r
}

/// The shell command that preloads phpMyAdmin's debconf answers.
pub open spec fn debconf_command() -> Seq<char> {
    "echo '"@ + "phpmyadmin phpmyadmin/reconfigure-webserver multiselect apache2"@ + "\n"@
        + "phpmyadmin phpmyadmin/dbconfig-install boolean true"@ + "\n"@
        + "phpmyadmin phpmyadmin/mysql/admin-pass password root"@ + "\n"@
        + "phpmyadmin phpmyadmin/app-password-confirm password root"@ + "\n"@
        + "phpmyadmin phpmyadmin/mysql/app-pass password root"@ + "' | debconf-set-selections"@
}

/// The debconf preloading command run before installing phpMyAdmin.
pub fn instalar_phpmyadmin() -> (r: String)
    ensures
        r@ == debconf_command(),
{
    let mut out: Vec<char> = Vec::new();
    push_str(&mut out, "echo '");
    push_str(&mut out, "phpmyadmin phpmyadmin/reconfigure-webserver multiselect apache2");
    push_str(&mut out, "\n");
    push_str(&mut out, "phpmyadmin phpmyadmin/dbconfig-install boolean true");
    push_str(&mut out, "\n");
    push_str(&mut out, "phpmyadmin phpmyadmin/mysql/admin-pass password root");
    push_str(&mut out, "\n");
    push_str(&mut out, "phpmyadmin phpmyadmin/app-password-confirm password root");
    push_str(&mut out, "\n");
    push_str(&mut out, "phpmyadmin phpmyadmin/mysql/app-pass password root");
    push_str(&mut out, "' | debconf-set-selections");
    string_from_chars(out.as_slice())
}

} // verus!
