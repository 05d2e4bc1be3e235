pub mod installed;
pub mod modrinth;
pub mod curseforge;
