//! A point-of-sale ledger: sales with their items and payments, daily totals
//! per payment method, and reports over date intervals.

pub mod calendar;
pub mod children;
pub mod config;
pub mod entities;
pub mod payment;
pub mod resume;
pub mod store;
pub mod usecases;
pub mod venda;

pub use calendar::{CalendarDate, DateTime};
pub use payment::{EPagamento, PaymentTypes};
pub use entities::{
    ResumeEntity, VendaEntity, VendaItemEntity, VendaPagamentoEntity, VendaWithRelations,
};
pub use config::{ConfigEntity, ConfigService, CreateOrUpdateConfigDto, UpdatePercentConfigDto};
pub use store::{Index, LedgerError, Operation, SqliteDbService, StoreFault, StoreLocation, Table};
pub use venda::{VendaResumo, VendaService};
pub use resume::ResumeService;
pub use usecases::{CreateOrUpdateConfigUseCase, GetFirstConfigUseCase, UpdatePercentUseCase};
