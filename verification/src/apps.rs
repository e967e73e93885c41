pub mod apache_httpd;
pub mod pcre2;
pub mod zlib;
