pub mod create_vault;
pub mod deposit;
pub mod withdraw;
